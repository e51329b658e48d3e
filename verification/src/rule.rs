//! Categorization rules: a pattern, the kind of value it is matched
//! against, the category it assigns, and a priority; higher priorities are
//! evaluated first.

use vstd::prelude::*;
use crate::error::AppError;
use crate::store::{Store, db_rules, rules_correspond};
use crate::text::str_eq;

verus! {

#[derive(Debug, Clone, Copy, PartialEq, Eq, Structural)]
pub enum MatchType {
    App,
    Domain,
    Title,
}

pub open spec fn spec_match_type_str(m: MatchType) -> Seq<char> {
    match m {
        MatchType::App => seq!['a', 'p', 'p'],
        MatchType::Domain => seq!['d', 'o', 'm', 'a', 'i', 'n'],
        MatchType::Title => seq!['t', 'i', 't', 'l', 'e'],
    }
}

pub open spec fn spec_match_type_of(s: Seq<char>) -> Option<MatchType> {
    if s == spec_match_type_str(MatchType::App) {
        Some(MatchType::App)
    } else if s == spec_match_type_str(MatchType::Domain) {
        Some(MatchType::Domain)
    } else if s == spec_match_type_str(MatchType::Title) {
        Some(MatchType::Title)
    } else {
        None
    }
}

impl MatchType {
    /// The stored string form of this match kind.
    pub fn as_str(&self) -> (r: &'static str)
        ensures
            r@ == spec_match_type_str(*self),
    {
        proof {
            reveal_strlit("app");
            reveal_strlit("domain");
            reveal_strlit("title");
        }
        match self {
            MatchType::App => {
                proof {
                    assert("app"@ =~= spec_match_type_str(MatchType::App));
                }
                "app"
            },
            MatchType::Domain => {
                proof {
                    assert("domain"@ =~= spec_match_type_str(MatchType::Domain));
                }
                "domain"
            },
            MatchType::Title => {
                proof {
                    assert("title"@ =~= spec_match_type_str(MatchType::Title));
                }
                "title"
            },
        }
    }

    /// Parses the stored string form back into a match kind.
    pub fn from_str(s: &str) -> (r: Option<MatchType>)
        ensures
            r == spec_match_type_of(s@),
    {
        proof {
            reveal_strlit("app");
            reveal_strlit("domain");
            reveal_strlit("title");
            assert("app"@ =~= spec_match_type_str(MatchType::App));
            assert("domain"@ =~= spec_match_type_str(MatchType::Domain));
            assert("title"@ =~= spec_match_type_str(MatchType::Title));
        }
        if str_eq(s, "app") {
            Some(MatchType::App)
        } else if str_eq(s, "domain") {
            Some(MatchType::Domain)
        } else if str_eq(s, "title") {
            Some(MatchType::Title)
        } else {
            None
        }
    }
}

/// A rule for categorizing activities based on patterns.
#[derive(Debug)]
pub struct Rule {
    pub id: i64,
    pub pattern: String,
    pub match_type: MatchType,
    pub category_id: i64,
    pub priority: i32,
}

impl Clone for Rule {
    /// A copy with the same fields, the pattern equal as a string.
    fn clone(&self) -> (r: Self)
        ensures
            r.id == self.id,
            r.pattern@ == self.pattern@,
            r.match_type == self.match_type,
            r.category_id == self.category_id,
            r.priority == self.priority,
    {
        Rule {
            id: self.id,
            pattern: self.pattern.clone(),
            match_type: self.match_type,
            category_id: self.category_id,
            priority: self.priority,
        }
    }
}

impl Rule {
    /// Every stored rule, one item per row, in no promised order; the
    /// categorizer sorts by priority for itself. Unknown match kinds are
    /// read back as App.
    pub fn find_all(store: &Store) -> (r: Result<Vec<Rule>, AppError>)
        ensures
            r matches Ok(v) ==> rules_correspond(v@, db_rules(store.conn)) && v@.len() == db_rules(
                store.conn,
            ).len(),
    {
        match store.find_all_rules() {
            Ok(v) => Ok(v),
            Err(e) => Err(AppError::Database(e)),
        }
    }

    /// Stores a new rule and returns it with its assigned id.
    pub fn create(
        store: &mut Store,
        pattern: &str,
        match_type: MatchType,
        category_id: i64,
        priority: i32,
    ) -> (r: Result<Rule, AppError>)
        ensures
            r matches Ok(rl) ==> (rl.pattern@ == pattern@ && rl.match_type == match_type
                && rl.category_id == category_id && rl.priority == priority && db_rules(
                final(store).conn,
            ) == db_rules(old(store).conn).push(
                (rl.id, pattern@, spec_match_type_str(match_type), category_id, priority),
            )),
            r is Err ==> db_rules(final(store).conn) == db_rules(old(store).conn),
    {
        match store.insert_rule(pattern, match_type.as_str(), category_id, priority) {
            Ok(id) => Ok(
                Rule { id, pattern: pattern.to_owned(), match_type, category_id, priority },
            ),
            Err(e) => Err(AppError::Database(e)),
        }
    }
}

} // verus!
