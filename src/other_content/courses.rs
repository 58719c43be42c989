//! The courses a user is enrolled in.
use vstd::prelude::*;

verus! {

pub struct Data {
    pub courses: Vec<Course>,
}

pub struct Course {
    pub id: i64,
    pub fullname: String,
    pub shortname: String,
    pub summary: String,
    pub startdate: i64,
    pub enddate: i64,
    pub viewurl: String,
    pub courseimage: String,
    pub coursecategory: String,
}

} // verus!
