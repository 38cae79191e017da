//! Updates as the JSON output lists them.
use vstd::prelude::*;
use vstd::utf8::encode_utf8;

use crate::rules::traits::Update;
use crate::utils::fetch::opt_string_view;
use crate::utils::patch::{bytes_of, utf8_lossy, utf8_lossy_of};

verus! {

/// One update as listed: the file, the rule, the field, the old and new
/// text, the byte range, and what it is about.
#[derive(Debug)]
pub struct UpdateEntry {
    pub file: String,
    pub rule: String,
    pub field: String,
    pub old: String,
    pub new: String,
    pub range: (usize, usize),
    pub target: Option<String>,
}

impl UpdateEntry {
    /// The entry of update `u` of the file `file` whose text is `content`;
    /// the old text is what the update's range covers.
    pub fn from_update(file: &str, content: &str, u: &Update) -> (r: Self)
        requires
            u.range.start <= u.range.end <= encode_utf8(content@).len(),
        ensures
            r.file@ == file@,
            r.rule@ == u.rule_name@,
            r.field@ == u.field@,
            r.old@ == utf8_lossy_of(encode_utf8(content@).subrange(u.range.start as int, u.range.end as int)),
            r.new@ == u.replacement@,
            r.range == (u.range.start, u.range.end),
            opt_string_view(r.target) == opt_string_view(u.target),
    {
        let bytes = bytes_of(content);
        let mut b: Vec<u8> = Vec::new();
        let mut i: usize = u.range.start;
        while i < u.range.end
            invariant
                u.range.start <= i <= u.range.end <= bytes@.len(),
                b@ == bytes@.subrange(u.range.start as int, i as int),
            decreases u.range.end - i,
        {
            b.push(bytes[i]);
            assert(bytes@.subrange(u.range.start as int, i + 1) =~= bytes@.subrange(u.range.start as int, i as int).push(
                bytes@[i as int],
            ));
            i += 1;
        }
        UpdateEntry {
            file: String::from_str(file),
            rule: String::from_str(u.rule_name.as_str()),
            field: String::from_str(u.field.as_str()),
            old: utf8_lossy(b.as_slice()),
            new: String::from_str(u.replacement.as_str()),
            range: (u.range.start, u.range.end),
            target: match &u.target {
                Some(t) => Some(String::from_str(t.as_str())),
                None => None,
            },
        }
    }
}

} // verus!
