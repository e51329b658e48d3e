//! Activity categories: a unique name and a productivity sign
//! (-1 distracting, 0 neutral, 1 productive).

use vstd::prelude::*;
use crate::error::AppError;
use crate::store::{Store, categories_correspond, category_matches_row, db_categories};

verus! {

#[derive(Debug, PartialEq)]
pub struct Category {
    pub id: i64,
    pub name: String,
    pub productivity: i32,
}

impl Clone for Category {
    /// A copy with the same id, name and productivity.
    fn clone(&self) -> (r: Self)
        ensures
            r.id == self.id,
            r.name@ == self.name@,
            r.productivity == self.productivity,
    {
        Category { id: self.id, name: self.name.clone(), productivity: self.productivity }
    }
}

impl Category {
    /// The category with this id, if stored.
    pub fn find_by_id(store: &Store, id: i64) -> (r: Result<Option<Category>, AppError>)
        ensures
            r matches Ok(opt) ==> match opt {
                None => forall|j: int|
                    0 <= j < db_categories(store.conn).len() ==> db_categories(store.conn)[j].0
                        != id,
                Some(c) => c.id == id && exists|j: int|
                    0 <= j < db_categories(store.conn).len() && category_matches_row(
                        c,
                        db_categories(store.conn)[j],
                    ),
            },
    {
        match store.find_category_by_id(id) {
            Ok(opt) => Ok(opt),
            Err(e) => Err(AppError::Database(e)),
        }
    }

    /// Every stored category, one item per row.
    pub fn find_all(store: &Store) -> (r: Result<Vec<Category>, AppError>)
        ensures
            r matches Ok(v) ==> categories_correspond(v@, db_categories(store.conn)) && v@.len()
                == db_categories(store.conn).len(),
    {
        match store.find_all_categories() {
            Ok(v) => Ok(v),
            Err(e) => Err(AppError::Database(e)),
        }
    }

    /// Stores a new category and returns it with its assigned id.
    pub fn create(store: &mut Store, name: &str, productivity: i32) -> (r: Result<
        Category,
        AppError,
    >)
        ensures
            r matches Ok(c) ==> (c.name@ == name@ && c.productivity == productivity
                && db_categories(final(store).conn) == db_categories(old(store).conn).push(
                (c.id, name@, productivity),
            )),
            r is Err ==> db_categories(final(store).conn) == db_categories(old(store).conn),
    {
        match store.insert_category(name, productivity) {
            Ok(id) => Ok(Category { id, name: name.to_owned(), productivity }),
            Err(e) => Err(AppError::Database(e)),
        }
    }
}

} // verus!
