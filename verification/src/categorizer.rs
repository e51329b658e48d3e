//! The categorizer: an immutable in-memory index of rules, paired with
//! their categories, sorted by priority descending (ties keep load order),
//! and a default category for anything no rule matches. Categorization
//! walks the index in order and the first matching rule wins.

use vstd::prelude::*;
use vstd::multiset::Multiset;
use vstd::seq_lib::group_to_multiset_ensures;
use crate::category::Category;
use crate::error::AppError;
use crate::pattern::spec_glob_match;
use crate::rule::{MatchType, Rule};
use crate::store::{
    CategoryRow, RuleRow, Store, categories_correspond, category_matches_row, db_categories,
    db_rules, rule_matches_row, rules_correspond,
};
use crate::text::{chars_vec, lower_of, lowercase, str_eq};

verus! {

/// Case-insensitive rule matching: both sides are lowercased, then the
/// pattern matches by glob segments or plain substring.
pub open spec fn spec_pattern_matches(pattern: Seq<char>, text: Seq<char>) -> bool {
    spec_glob_match(lower_of(pattern), lower_of(text))
}

pub open spec fn opt_str_view(t: Option<&str>) -> Option<Seq<char>> {
    match t {
        Some(s) => Some(s@),
        None => None,
    }
}

/// Whether a rule applies to an app observation: App rules match the app
/// name, Title rules the window title when one is present.
pub open spec fn rule_matches_app(r: Rule, app: Seq<char>, title: Option<Seq<char>>) -> bool {
    match r.match_type {
        MatchType::App => spec_pattern_matches(r.pattern@, app),
        MatchType::Title => title matches Some(t) && spec_pattern_matches(r.pattern@, t),
        MatchType::Domain => false,
    }
}

/// Whether a rule applies to a domain observation.
pub open spec fn rule_matches_domain(r: Rule, domain: Seq<char>) -> bool {
    r.match_type is Domain && spec_pattern_matches(r.pattern@, domain)
}

/// The category of the first rule that matches the app observation.
pub open spec fn spec_first_app_match(
    rules: Seq<(Rule, Category)>,
    app: Seq<char>,
    title: Option<Seq<char>>,
) -> Option<i64>
    decreases rules.len(),
{
    if rules.len() == 0 {
        None
    } else if rule_matches_app(rules[0].0, app, title) {
        Some(rules[0].0.category_id)
    } else {
        spec_first_app_match(rules.drop_first(), app, title)
    }
}

/// The category of the first rule that matches the domain.
pub open spec fn spec_first_domain_match(
    rules: Seq<(Rule, Category)>,
    domain: Seq<char>,
) -> Option<i64>
    decreases rules.len(),
{
    if rules.len() == 0 {
        None
    } else if rule_matches_domain(rules[0].0, domain) {
        Some(rules[0].0.category_id)
    } else {
        spec_first_domain_match(rules.drop_first(), domain)
    }
}

/// The index is ordered by rule priority, descending.
pub open spec fn sorted_by_priority_desc(rules: Seq<(Rule, Category)>) -> bool {
    forall|i: int, j: int|
        0 <= i < j < rules.len() ==> (#[trigger] rules[i]).0.priority >= (#[trigger] rules[j]).0.priority
}

/// Field-level equality of rules, the pattern compared as a string.
pub open spec fn rule_view_eq(a: Rule, b: Rule) -> bool {
    a.id == b.id && a.pattern@ == b.pattern@ && a.match_type == b.match_type && a.category_id
        == b.category_id && a.priority == b.priority
}

/// Field-level equality of categories, the name compared as a string.
pub open spec fn cat_view_eq(a: Category, b: Category) -> bool {
    a.id == b.id && a.name@ == b.name@ && a.productivity == b.productivity
}

/// One index entry is backed by a rule row and the category row that the
/// rule points at.
pub open spec fn entry_corresponds(
    e: (Rule, Category),
    rules: Seq<RuleRow>,
    cats: Seq<CategoryRow>,
) -> bool {
    (exists|j: int| 0 <= j < rules.len() && rule_matches_row(e.0, rules[j])) && (exists|k: int|
        0 <= k < cats.len() && category_matches_row(e.1, cats[k])) && e.1.id == e.0.category_id
}

/// One index entry mirrors a fetched rule and a fetched category that the
/// rule points at.
pub open spec fn entry_backed(e: (Rule, Category), rules_f: Seq<Rule>, cats_f: Seq<Category>) -> bool {
    (exists|fj: int| 0 <= fj < rules_f.len() && rule_view_eq(e.0, #[trigger] rules_f[fj])) && (
    exists|fm: int|
        0 <= fm < cats_f.len() && cat_view_eq(e.1, #[trigger] cats_f[fm])) && e.1.id
        == e.0.category_id
}

/// Every rule row whose category id has a category row is represented in
/// the index: nothing the store holds is dropped but orphaned rules.
pub open spec fn index_complete(
    entries: Seq<(Rule, Category)>,
    rules: Seq<RuleRow>,
    cats: Seq<CategoryRow>,
) -> bool {
    forall|j: int|
        0 <= j < rules.len() && (exists|k: int|
            0 <= k < cats.len() && (#[trigger] cats[k]).0 == (#[trigger] rules[j]).3) ==> exists|
            i: int,
        |
            0 <= i < entries.len() && rule_matches_row((#[trigger] entries[i]).0, rules[j])
}

/// The fallback id is the id of a category row named "Uncategorized", or
/// 1 when no row carries that name.
pub open spec fn default_id_of(default_id: i64, cats: Seq<CategoryRow>) -> bool {
    (exists|k: int|
        0 <= k < cats.len() && (#[trigger] cats[k]).1 == "Uncategorized"@ && cats[k].0
            == default_id) || ((forall|k: int|
        0 <= k < cats.len() ==> (#[trigger] cats[k]).1 != "Uncategorized"@) && default_id == 1)
}

pub struct Categorizer {
    rules: Vec<(Rule, Category)>,
    default_category_id: i64,
}

impl Categorizer {
    /// The rule index, in evaluation order.
    pub closed spec fn spec_rules(&self) -> Seq<(Rule, Category)> {
        self.rules@
    }

    /// The fallback category id.
    pub closed spec fn spec_default(&self) -> i64 {
        self.default_category_id
    }

    pub open spec fn wf(&self) -> bool {
        sorted_by_priority_desc(self.spec_rules())
    }

    /// Whether the lowercased `pattern` matches the lowercased `text`:
    /// star patterns by in-order disjoint segments, others by substring.
    pub fn pattern_matches(pattern: &str, text: &str) -> (r: bool)
        ensures
            r == spec_pattern_matches(pattern@, text@),
    {
        let pl = lowercase(pattern);
        let tl = lowercase(text);
        let pv = chars_vec(pl.as_str());
        let tv = chars_vec(tl.as_str());
        crate::pattern::glob_match_chars(&pv, &tv)
    }

    /// The category for an app observation: the first matching App or
    /// Title rule's category, or the default when none matches.
    pub fn categorize_app(&self, app_name: &str, window_title: Option<&str>) -> (r: i64)
        ensures
            r == match spec_first_app_match(self.spec_rules(), app_name@, opt_str_view(
                window_title,
            )) {
                Some(c) => c,
                None => self.spec_default(),
            },
    {
        let ghost rules_v = self.rules@;
        let ghost title_v = opt_str_view(window_title);
        let mut k: usize = 0;
        proof {
            assert(rules_v.skip(0) =~= rules_v);
        }
        while k < self.rules.len()
            invariant
                rules_v == self.rules@,
                title_v == opt_str_view(window_title),
                k <= rules_v.len(),
                spec_first_app_match(rules_v, app_name@, title_v) == spec_first_app_match(
                    rules_v.skip(k as int),
                    app_name@,
                    title_v,
                ),
            decreases rules_v.len() - k,
        {
            let rule = &self.rules[k].0;
            proof {
                let t = rules_v.skip(k as int);
                assert(t[0] == rules_v[k as int]);
                assert(t.drop_first() =~= rules_v.skip(k + 1));
            }
            let matched = match rule.match_type {
                MatchType::App => Self::pattern_matches(&rule.pattern, app_name),
                MatchType::Title => match window_title {
                    Some(t) => Self::pattern_matches(&rule.pattern, t),
                    None => false,
                },
                MatchType::Domain => false,
            };
            if matched {
                return rule.category_id;
            }
            k = k + 1;
        }
        proof {
            assert(rules_v.skip(rules_v.len() as int) =~= Seq::<(Rule, Category)>::empty());
        }
        self.default_category_id
    }

    /// The category for a domain: the first matching Domain rule's
    /// category, or the default when none matches.
    pub fn categorize_url(&self, domain: &str) -> (r: i64)
        ensures
            r == match spec_first_domain_match(self.spec_rules(), domain@) {
                Some(c) => c,
                None => self.spec_default(),
            },
    {
        let ghost rules_v = self.rules@;
        let mut k: usize = 0;
        proof {
            assert(rules_v.skip(0) =~= rules_v);
        }
        while k < self.rules.len()
            invariant
                rules_v == self.rules@,
                k <= rules_v.len(),
                spec_first_domain_match(rules_v, domain@) == spec_first_domain_match(
                    rules_v.skip(k as int),
                    domain@,
                ),
            decreases rules_v.len() - k,
        {
            let rule = &self.rules[k].0;
            proof {
                let t = rules_v.skip(k as int);
                assert(t[0] == rules_v[k as int]);
                assert(t.drop_first() =~= rules_v.skip(k + 1));
            }
            let matched = match rule.match_type {
                MatchType::Domain => Self::pattern_matches(&rule.pattern, domain),
                MatchType::App => false,
                MatchType::Title => false,
            };
            if matched {
                return rule.category_id;
            }
            k = k + 1;
        }
        proof {
            assert(rules_v.skip(rules_v.len() as int) =~= Seq::<(Rule, Category)>::empty());
        }
        self.default_category_id
    }

    /// Builds the index from the store: rules whose category no longer
    /// exists are dropped, the rest sorted by priority descending, and the
    /// default is the "Uncategorized" category, or id 1 if it is missing.
    pub fn new(store: &Store) -> (r: Result<Categorizer, AppError>)
        ensures
            r matches Ok(c) ==> c.wf() && (forall|i: int|
                0 <= i < c.spec_rules().len() ==> entry_corresponds(
                    #[trigger] c.spec_rules()[i],
                    db_rules(store.conn),
                    db_categories(store.conn),
                )) && index_complete(
                c.spec_rules(),
                db_rules(store.conn),
                db_categories(store.conn),
            ) && default_id_of(c.spec_default(), db_categories(store.conn)),
    {
        let fetched_rules = Rule::find_all(store)?;
        let fetched_cats = Category::find_all(store)?;
        let ghost rules_f = fetched_rules@;
        let ghost cats_f = fetched_cats@;
        let paired = pair_with_categories(fetched_rules, &fetched_cats);
        let ghost paired_v = paired@;
        let sorted = sort_entries_desc(paired);
        let found_default = find_uncategorized(&fetched_cats);
        let default_category_id = match found_default {
            Some(id) => id,
            None => 1,
        };
        let c = Categorizer { rules: sorted, default_category_id };
        proof {
            let dbr = db_rules(store.conn);
            let dbc = db_categories(store.conn);
            assert forall|i: int| 0 <= i < c.spec_rules().len() implies entry_corresponds(
                #[trigger] c.spec_rules()[i],
                dbr,
                dbc,
            ) by {
                let e = c.spec_rules()[i];
                assert(c.spec_rules().contains(e));
                assert(paired_v.contains(e));
                let k = choose|k: int| 0 <= k < paired_v.len() && paired_v[k] == e;
                assert(entry_backed(paired_v[k], rules_f, cats_f));
                lemma_entry_corresponds(e, rules_f, cats_f, dbr, dbc);
            }
            lemma_index_complete(c.spec_rules(), paired_v, rules_f, cats_f, dbr, dbc);
            lemma_default_id(default_category_id as i64, found_default, cats_f, dbc);
        }
        Ok(c)
    }

    /// Rebuilds the index from the store; on failure the old index stays.
    pub fn reload(&mut self, store: &Store) -> (r: Result<(), AppError>)
        ensures
            r is Ok ==> final(self).wf() && (forall|i: int|
                0 <= i < final(self).spec_rules().len() ==> entry_corresponds(
                    #[trigger] final(self).spec_rules()[i],
                    db_rules(store.conn),
                    db_categories(store.conn),
                )) && index_complete(
                final(self).spec_rules(),
                db_rules(store.conn),
                db_categories(store.conn),
            ) && default_id_of(final(self).spec_default(), db_categories(store.conn)),
            r is Err ==> *final(self) == *old(self),
    {
        match Self::new(store) {
            Ok(c) => {
                *self = c;
                Ok(())
            },
            Err(e) => Err(e),
        }
    }
}

/// An entry whose parts mirror fetched rows is backed by store rows.
proof fn lemma_entry_corresponds(
    e: (Rule, Category),
    rules_f: Seq<Rule>,
    cats_f: Seq<Category>,
    dbr: Seq<RuleRow>,
    dbc: Seq<CategoryRow>,
)
    requires
        entry_backed(e, rules_f, cats_f),
        rules_correspond(rules_f, dbr),
        categories_correspond(cats_f, dbc),
    ensures
        entry_corresponds(e, dbr, dbc),
{
    let fj = choose|fj: int| 0 <= fj < rules_f.len() && rule_view_eq(e.0, #[trigger] rules_f[fj]);
    let fm = choose|fm: int| 0 <= fm < cats_f.len() && cat_view_eq(e.1, #[trigger] cats_f[fm]);
    let dj = choose|dj: int| 0 <= dj < dbr.len() && rule_matches_row(rules_f[fj], #[trigger] dbr[dj]);
    let dm = choose|dm: int|
        0 <= dm < dbc.len() && category_matches_row(cats_f[fm], #[trigger] dbc[dm]);
    assert(rule_matches_row(e.0, dbr[dj]));
    assert(category_matches_row(e.1, dbc[dm]));
}

/// Every rule row with a live category reaches the final index: the
/// pairing kept it and the sort only reorders.
proof fn lemma_index_complete(
    entries: Seq<(Rule, Category)>,
    paired: Seq<(Rule, Category)>,
    rules_f: Seq<Rule>,
    cats_f: Seq<Category>,
    dbr: Seq<RuleRow>,
    dbc: Seq<CategoryRow>,
)
    requires
        forall|x: (Rule, Category)| paired.contains(x) ==> entries.contains(x),
        forall|j: int|
            0 <= j < rules_f.len() && (exists|m: int|
                0 <= m < cats_f.len() && cats_f[m].id == (#[trigger] rules_f[j]).category_id)
                ==> exists|i: int| 0 <= i < paired.len() && rule_view_eq(paired[i].0, rules_f[j]),
        rules_correspond(rules_f, dbr),
        categories_correspond(cats_f, dbc),
    ensures
        index_complete(entries, dbr, dbc),
{
    assert forall|j: int|
        0 <= j < dbr.len() && (exists|k: int|
            0 <= k < dbc.len() && (#[trigger] dbc[k]).0 == (#[trigger] dbr[j]).3) implies exists|
        i: int,
    |
        0 <= i < entries.len() && rule_matches_row((#[trigger] entries[i]).0, dbr[j]) by {
        let k = choose|k: int| 0 <= k < dbc.len() && (#[trigger] dbc[k]).0 == dbr[j].3;
        let m = choose|m: int|
            0 <= m < cats_f.len() && category_matches_row(#[trigger] cats_f[m], dbc[k]);
        assert(cats_f[m].id == dbr[j].3);
        let fj = choose|fj: int|
            0 <= fj < rules_f.len() && rule_matches_row(#[trigger] rules_f[fj], dbr[j]);
        assert(rules_f[fj].category_id == dbr[j].3);
        assert(cats_f[m].id == rules_f[fj].category_id);
        let pi = choose|pi: int|
            0 <= pi < paired.len() && rule_view_eq((#[trigger] paired[pi]).0, rules_f[fj]);
        assert(paired.contains(paired[pi]));
        assert(entries.contains(paired[pi]));
        let ei = choose|ei: int| 0 <= ei < entries.len() && entries[ei] == paired[pi];
        assert(rule_matches_row(entries[ei].0, dbr[j]));
    }
}

/// The fallback id found among the fetched categories is the id of an
/// "Uncategorized" row, or 1 when no such row exists.
proof fn lemma_default_id(
    default_id: i64,
    found: Option<i64>,
    cats_f: Seq<Category>,
    dbc: Seq<CategoryRow>,
)
    requires
        categories_correspond(cats_f, dbc),
        found matches Some(id) ==> default_id == id && exists|m: int|
            0 <= m < cats_f.len() && (#[trigger] cats_f[m]).id == id && cats_f[m].name@
                == "Uncategorized"@,
        found is None ==> default_id == 1 && forall|m: int|
            0 <= m < cats_f.len() ==> (#[trigger] cats_f[m]).name@ != "Uncategorized"@,
    ensures
        default_id_of(default_id, dbc),
{
    match found {
        Some(id) => {
            let m = choose|m: int|
                0 <= m < cats_f.len() && (#[trigger] cats_f[m]).id == id && cats_f[m].name@
                    == "Uncategorized"@;
            let k = choose|k: int|
                0 <= k < dbc.len() && category_matches_row(cats_f[m], #[trigger] dbc[k]);
            assert(dbc[k].1 == "Uncategorized"@ && dbc[k].0 == default_id);
        },
        None => {
            assert forall|k: int| 0 <= k < dbc.len() implies (#[trigger] dbc[k]).1
                != "Uncategorized"@ by {
                let m = choose|m: int|
                    0 <= m < cats_f.len() && category_matches_row(#[trigger] cats_f[m], dbc[k]);
                assert(cats_f[m].name@ == dbc[k].1);
            }
        },
    }
}

/// Pairs every rule with its category, dropping rules whose category is
/// not in the list; the first category with the rule's id wins.
fn pair_with_categories(rules: Vec<Rule>, cats: &Vec<Category>) -> (r: Vec<(Rule, Category)>)
    ensures
        forall|i: int| 0 <= i < r@.len() ==> entry_backed(#[trigger] r@[i], rules@, cats@),
        forall|j: int|
            0 <= j < rules@.len() && (exists|m: int|
                0 <= m < cats@.len() && cats@[m].id == (#[trigger] rules@[j]).category_id)
                ==> exists|i: int| 0 <= i < r@.len() && rule_view_eq(r@[i].0, rules@[j]),
{
    let mut r: Vec<(Rule, Category)> = Vec::new();
    let n = rules.len();
    let mut j: usize = 0;
    while j < n
        invariant
            n == rules@.len(),
            j <= n,
            forall|i: int| 0 <= i < r@.len() ==> entry_backed(#[trigger] r@[i], rules@, cats@),
            forall|jj: int|
                0 <= jj < j && (exists|m: int|
                    0 <= m < cats@.len() && cats@[m].id == (#[trigger] rules@[jj]).category_id)
                    ==> exists|i: int| 0 <= i < r@.len() && rule_view_eq(r@[i].0, rules@[jj]),
        decreases n - j,
    {
        let rule = &rules[j];
        match find_category_with_id(cats, rule.category_id) {
            Some(idx) => {
                let ghost old_r = r@;
                let entry = (rule.clone(), cats[idx].clone());
                r.push(entry);
                proof {
                    assert(rule_view_eq(r@[r@.len() - 1].0, rules@[j as int]));
                    assert(cat_view_eq(r@[r@.len() - 1].1, cats@[idx as int]));
                    assert forall|jj: int|
                        0 <= jj < j + 1 && (exists|m: int|
                            0 <= m < cats@.len() && cats@[m].id == (#[trigger] rules@[jj]).category_id)
                        implies exists|i: int|
                        0 <= i < r@.len() && rule_view_eq(r@[i].0, rules@[jj]) by {
                        if jj < j {
                            let i0 = choose|i0: int|
                                0 <= i0 < old_r.len() && rule_view_eq(old_r[i0].0, rules@[jj]);
                            assert(r@[i0] == old_r[i0]);
                            assert(rule_view_eq(r@[i0].0, rules@[jj]));
                        } else {
                            assert(rule_view_eq(r@[r@.len() - 1].0, rules@[jj]));
                        }
                    }
                }
            },
            None => {},
        }
        j = j + 1;
    }
    r
}

/// The index of the first category with this id, if any.
fn find_category_with_id(cats: &Vec<Category>, id: i64) -> (r: Option<usize>)
    ensures
        match r {
            Some(i) => i < cats@.len() && cats@[i as int].id == id,
            None => forall|m: int| 0 <= m < cats@.len() ==> cats@[m].id != id,
        },
{
    let n = cats.len();
    let mut i: usize = 0;
    while i < n
        invariant
            n == cats@.len(),
            i <= n,
            forall|m: int| 0 <= m < i ==> cats@[m].id != id,
        decreases n - i,
    {
        if cats[i].id == id {
            return Some(i);
        }
        i = i + 1;
    }
    None
}

/// The id of the first category named "Uncategorized", if any.
fn find_uncategorized(cats: &Vec<Category>) -> (r: Option<i64>)
    ensures
        r matches Some(id) ==> exists|m: int|
            0 <= m < cats@.len() && cats@[m].id == id && cats@[m].name@ == "Uncategorized"@,
        r is None ==> forall|m: int| 0 <= m < cats@.len() ==> cats@[m].name@ != "Uncategorized"@,
{
    let n = cats.len();
    let mut i: usize = 0;
    while i < n
        invariant
            n == cats@.len(),
            i <= n,
            forall|m: int| 0 <= m < i ==> cats@[m].name@ != "Uncategorized"@,
        decreases n - i,
    {
        if str_eq(cats[i].name.as_str(), "Uncategorized") {
            return Some(cats[i].id);
        }
        i = i + 1;
    }
    None
}

/// Sorts the entries by priority, descending; ties keep their order of
/// selection (the leftmost remaining maximum goes first).
fn sort_entries_desc(v: Vec<(Rule, Category)>) -> (r: Vec<(Rule, Category)>)
    ensures
        sorted_by_priority_desc(r@),
        r@.to_multiset() == v@.to_multiset(),
        forall|x: (Rule, Category)| r@.contains(x) <==> v@.contains(x),
{
    broadcast use group_to_multiset_ensures;
    broadcast use vstd::multiset::group_multiset_axioms;

    let ghost orig = v@;
    let mut rest = v;
    let mut out: Vec<(Rule, Category)> = Vec::new();
    while rest.len() > 0
        invariant
            out@.to_multiset().add(rest@.to_multiset()) =~= orig.to_multiset(),
            sorted_by_priority_desc(out@),
            forall|i: int, j: int|
                0 <= i < out@.len() && 0 <= j < rest@.len() ==> (#[trigger] out@[i]).0.priority
                    >= (#[trigger] rest@[j]).0.priority,
        decreases rest@.len(),
    {
        let idx = max_priority_index(&rest);
        let ghost old_rest = rest@;
        let ghost old_out = out@;
        let x = rest.remove(idx);
        proof {
            assert(old_rest.contains(old_rest[idx as int]));
            assert(rest@ == old_rest.remove(idx as int));
            vstd::seq_lib::to_multiset_remove(old_rest, idx as int);
            old_rest.to_multiset_ensures();
            assert(rest@.to_multiset() =~= old_rest.to_multiset().remove(x));
            assert forall|j: int| 0 <= j < rest@.len() implies (#[trigger] rest@[j]).0.priority
                <= x.0.priority by {
                if j < idx {
                    assert(rest@[j] == old_rest[j]);
                } else {
                    assert(rest@[j] == old_rest[j + 1]);
                }
            }
        }
        out.push(x);
        proof {
            assert(out@ == old_out.push(x));
            vstd::seq_lib::to_multiset_build(old_out, x);
            assert(out@.to_multiset() =~= old_out.to_multiset().insert(x));
            assert(old_rest.to_multiset().count(x) > 0);
            assert(out@.to_multiset().add(rest@.to_multiset()) =~= orig.to_multiset());
            assert forall|i: int, j: int|
                0 <= i < j < out@.len() implies (#[trigger] out@[i]).0.priority
                >= (#[trigger] out@[j]).0.priority by {
                if j < out@.len() - 1 {
                    assert(out@[i] == old_out[i]);
                    assert(out@[j] == old_out[j]);
                } else {
                    assert(out@[j] == x);
                    assert(out@[i] == old_out[i]);
                    assert(old_rest[idx as int] == x);
                }
            }
        }
    }
    proof {
        assert(rest@.to_multiset() =~= Multiset::<(Rule, Category)>::empty());
        assert(out@.to_multiset() =~= orig.to_multiset());
        assert forall|x: (Rule, Category)| out@.contains(x) <==> orig.contains(x) by {
            assert(out@.contains(x) <==> out@.to_multiset().count(x) > 0);
            assert(orig.contains(x) <==> orig.to_multiset().count(x) > 0);
        }
    }
    out
}

/// The index of the first entry with maximal priority.
fn max_priority_index(v: &Vec<(Rule, Category)>) -> (r: usize)
    requires
        v@.len() > 0,
    ensures
        r < v@.len(),
        forall|j: int| 0 <= j < v@.len() ==> (#[trigger] v@[j]).0.priority <= v@[r as int].0.priority,
{
    let n = v.len();
    let mut best: usize = 0;
    let mut i: usize = 1;
    while i < n
        invariant
            n == v@.len(),
            best < i <= n || (best == 0 && i <= n),
            best < n,
            forall|j: int| 0 <= j < i ==> (#[trigger] v@[j]).0.priority <= v@[best as int].0.priority,
        decreases n - i,
    {
        if v[i].0.priority > v[best].0.priority {
            best = i;
        }
        i = i + 1;
    }
    best
}

/// When no rule matches an app observation, the fallback id is returned:
/// the first-match scan comes up empty.
pub proof fn lemma_no_app_match_gives_default(
    rules: Seq<(Rule, Category)>,
    app: Seq<char>,
    title: Option<Seq<char>>,
)
    requires
        forall|i: int| 0 <= i < rules.len() ==> !rule_matches_app((#[trigger] rules[i]).0, app, title),
    ensures
        spec_first_app_match(rules, app, title) is None,
    decreases rules.len(),
{
    if rules.len() > 0 {
        assert forall|i: int|
            0 <= i < rules.drop_first().len() implies !rule_matches_app(
            (#[trigger] rules.drop_first()[i]).0,
            app,
            title,
        ) by {
            assert(rules.drop_first()[i] == rules[i + 1]);
        }
        lemma_no_app_match_gives_default(rules.drop_first(), app, title);
    }
}

/// When no Domain rule matches, the fallback id is returned.
pub proof fn lemma_no_domain_match_gives_default(rules: Seq<(Rule, Category)>, domain: Seq<char>)
    requires
        forall|i: int| 0 <= i < rules.len() ==> !rule_matches_domain((#[trigger] rules[i]).0, domain),
    ensures
        spec_first_domain_match(rules, domain) is None,
    decreases rules.len(),
{
    if rules.len() > 0 {
        assert forall|i: int|
            0 <= i < rules.drop_first().len() implies !rule_matches_domain(
            (#[trigger] rules.drop_first()[i]).0,
            domain,
        ) by {
            assert(rules.drop_first()[i] == rules[i + 1]);
        }
        lemma_no_domain_match_gives_default(rules.drop_first(), domain);
    }
}

/// The position of the first rule matching an app observation, or the
/// index length when none does.
pub open spec fn spec_first_app_match_index(
    rules: Seq<(Rule, Category)>,
    app: Seq<char>,
    title: Option<Seq<char>>,
) -> int
    decreases rules.len(),
{
    if rules.len() == 0 {
        0
    } else if rule_matches_app(rules[0].0, app, title) {
        0
    } else {
        1 + spec_first_app_match_index(rules.drop_first(), app, title)
    }
}

/// The first-match scan returns the category of the earliest matching
/// rule, and nothing before it matches.
pub proof fn lemma_first_app_match_index(
    rules: Seq<(Rule, Category)>,
    app: Seq<char>,
    title: Option<Seq<char>>,
)
    ensures
        0 <= spec_first_app_match_index(rules, app, title) <= rules.len(),
        spec_first_app_match_index(rules, app, title) < rules.len() ==> rule_matches_app(
            rules[spec_first_app_match_index(rules, app, title)].0,
            app,
            title,
        ) && spec_first_app_match(rules, app, title) == Some(
            rules[spec_first_app_match_index(rules, app, title)].0.category_id,
        ),
        spec_first_app_match_index(rules, app, title) == rules.len() ==> spec_first_app_match(
            rules,
            app,
            title,
        ) is None,
        forall|k: int|
            0 <= k < spec_first_app_match_index(rules, app, title) ==> !rule_matches_app(
                (#[trigger] rules[k]).0,
                app,
                title,
            ),
    decreases rules.len(),
{
    if rules.len() > 0 && !rule_matches_app(rules[0].0, app, title) {
        lemma_first_app_match_index(rules.drop_first(), app, title);
        let fi = spec_first_app_match_index(rules, app, title);
        assert forall|k: int| 0 <= k < fi implies !rule_matches_app(
            (#[trigger] rules[k]).0,
            app,
            title,
        ) by {
            if k > 0 {
                assert(rules.drop_first()[k - 1] == rules[k]);
            }
        }
        if fi < rules.len() {
            assert(rules.drop_first()[fi - 1] == rules[fi]);
        }
    }
}

/// On a priority-sorted index, whenever any rule matches an app
/// observation, the winning rule is a matching rule of maximal priority,
/// regardless of how specific the other matching patterns are.
pub proof fn lemma_highest_priority_app_match_wins(
    rules: Seq<(Rule, Category)>,
    app: Seq<char>,
    title: Option<Seq<char>>,
    w: int,
)
    requires
        sorted_by_priority_desc(rules),
        0 <= w < rules.len(),
        rule_matches_app(rules[w].0, app, title),
    ensures
        0 <= spec_first_app_match_index(rules, app, title) < rules.len(),
        rule_matches_app(rules[spec_first_app_match_index(rules, app, title)].0, app, title),
        spec_first_app_match(rules, app, title) == Some(
            rules[spec_first_app_match_index(rules, app, title)].0.category_id,
        ),
        forall|m: int|
            0 <= m < rules.len() && rule_matches_app((#[trigger] rules[m]).0, app, title)
                ==> rules[m].0.priority <= rules[spec_first_app_match_index(
                rules,
                app,
                title,
            )].0.priority,
{
    lemma_first_app_match_index(rules, app, title);
    let fi = spec_first_app_match_index(rules, app, title);
    assert(fi <= w);
    assert forall|m: int|
        0 <= m < rules.len() && rule_matches_app((#[trigger] rules[m]).0, app, title) implies
        rules[m].0.priority <= rules[fi].0.priority by {
        assert(m >= fi);
    }
}

/// The position of the first Domain rule matching a domain, or the index
/// length when none does.
pub open spec fn spec_first_domain_match_index(
    rules: Seq<(Rule, Category)>,
    domain: Seq<char>,
) -> int
    decreases rules.len(),
{
    if rules.len() == 0 {
        0
    } else if rule_matches_domain(rules[0].0, domain) {
        0
    } else {
        1 + spec_first_domain_match_index(rules.drop_first(), domain)
    }
}

/// The first-match scan returns the category of the earliest matching
/// Domain rule, and nothing before it matches.
pub proof fn lemma_first_domain_match_index(rules: Seq<(Rule, Category)>, domain: Seq<char>)
    ensures
        0 <= spec_first_domain_match_index(rules, domain) <= rules.len(),
        spec_first_domain_match_index(rules, domain) < rules.len() ==> rule_matches_domain(
            rules[spec_first_domain_match_index(rules, domain)].0,
            domain,
        ) && spec_first_domain_match(rules, domain) == Some(
            rules[spec_first_domain_match_index(rules, domain)].0.category_id,
        ),
        spec_first_domain_match_index(rules, domain) == rules.len() ==> spec_first_domain_match(
            rules,
            domain,
        ) is None,
        forall|k: int|
            0 <= k < spec_first_domain_match_index(rules, domain) ==> !rule_matches_domain(
                (#[trigger] rules[k]).0,
                domain,
            ),
    decreases rules.len(),
{
    if rules.len() > 0 && !rule_matches_domain(rules[0].0, domain) {
        lemma_first_domain_match_index(rules.drop_first(), domain);
        let fi = spec_first_domain_match_index(rules, domain);
        assert forall|k: int| 0 <= k < fi implies !rule_matches_domain(
            (#[trigger] rules[k]).0,
            domain,
        ) by {
            if k > 0 {
                assert(rules.drop_first()[k - 1] == rules[k]);
            }
        }
        if fi < rules.len() {
            assert(rules.drop_first()[fi - 1] == rules[fi]);
        }
    }
}

/// The Domain-rule counterpart of the highest-priority law.
pub proof fn lemma_highest_priority_domain_match_wins(
    rules: Seq<(Rule, Category)>,
    domain: Seq<char>,
    w: int,
)
    requires
        sorted_by_priority_desc(rules),
        0 <= w < rules.len(),
        rule_matches_domain(rules[w].0, domain),
    ensures
        0 <= spec_first_domain_match_index(rules, domain) < rules.len(),
        rule_matches_domain(rules[spec_first_domain_match_index(rules, domain)].0, domain),
        spec_first_domain_match(rules, domain) == Some(
            rules[spec_first_domain_match_index(rules, domain)].0.category_id,
        ),
        forall|m: int|
            0 <= m < rules.len() && rule_matches_domain((#[trigger] rules[m]).0, domain)
                ==> rules[m].0.priority <= rules[spec_first_domain_match_index(
                rules,
                domain,
            )].0.priority,
{
    lemma_first_domain_match_index(rules, domain);
    let fi = spec_first_domain_match_index(rules, domain);
    assert(fi <= w);
    assert forall|m: int|
        0 <= m < rules.len() && rule_matches_domain((#[trigger] rules[m]).0, domain) implies
        rules[m].0.priority <= rules[fi].0.priority by {
        assert(m >= fi);
    }
}

} // verus!
