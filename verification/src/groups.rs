//! Student groups: the record types and the validation rule for a group
//! name.

use vstd::prelude::*;
use vstd::string::StringSliceAdditionalSpecFns;

use crate::text::{bytes_blank, is_blank, is_ws_u8, leading_ws, trailing_ws, trim_bounds};

verus! {

#[derive(Clone, Debug)]
pub struct Group {
    pub id: i32,
    pub name: String,
    pub created_at: String,
    pub updated_at: String,
}

#[derive(Clone, Debug)]
pub struct CreateGroupRequest {
    pub name: String,
}

#[derive(Clone, Debug)]
pub struct UpdateGroupRequest {
    pub name: String,
}

#[derive(Clone, Debug)]
pub struct GroupWithStudentCount {
    pub id: i32,
    pub name: String,
    pub student_count: i32,
    pub created_at: String,
    pub updated_at: String,
}

#[derive(Clone, Debug)]
pub struct GroupStatistics {
    pub total_groups: i32,
    pub groups_with_students: i32,
    pub empty_groups: i32,
    pub largest_group_name: Option<String>,
    pub largest_group_size: i32,
}

/// What group-name validation accepts: a name that does not trim away to
/// nothing, whose trimmed form is at most 100 bytes and contains no tab,
/// line feed or carriage return.
pub open spec fn valid_group_name(s: Seq<u8>) -> bool {
    &&& !is_blank(s)
    &&& s.len() - leading_ws(s) - trailing_ws(s) <= 100
    &&& forall|i: int|
        leading_ws(s) <= i < s.len() - trailing_ws(s) ==> (#[trigger] s[i]) != 9 && s[i] != 10
            && s[i] != 13
}

pub struct GroupsService;

impl GroupsService {
    /// Validate a group name. Whitespace handling is byte-based over the
    /// six ASCII whitespace characters.
    pub fn validate_group_name(name: &str) -> (r: Result<(), String>)
        ensures
            r is Ok <==> valid_group_name(name.spec_bytes()),
    {
        let bytes: &[u8] = name.as_bytes();
        if bytes_blank(bytes) {
            return Err("Group name cannot be empty".to_owned());
        }
        let (start, kept) = trim_bounds(bytes);
        if kept > 100 {
            return Err("Group name cannot be longer than 100 characters".to_owned());
        }
        let total: usize = bytes.len();
        assert(start + kept <= total);
        let end: usize = start + kept;
        let mut j: usize = start;
        while j < end
            invariant
                bytes@ == name.spec_bytes(),
                start == leading_ws(bytes@),
                kept == bytes@.len() - trailing_ws(bytes@) - leading_ws(bytes@),
                end == start + kept,
                end <= bytes@.len(),
                start <= j <= end,
                forall|k: int|
                    start <= k < j ==> (#[trigger] bytes@[k]) != 9 && bytes@[k] != 10 && bytes@[k]
                        != 13,
            decreases end - j,
        {
            let c: u8 = bytes[j];
            if c == 9 || c == 10 || c == 13 {
                return Err("Group name cannot contain line breaks or tabs".to_owned());
            }
            j = j + 1;
        }
        Ok(())
    }
}

} // verus!
