//! The `errors` list of a monday.com GraphQL answer.

use vstd::prelude::*;
use crate::text::join2;

verus! {

/// The messages among the errors, in order: an error without a text message
/// gives none.
pub open spec fn present_messages(errors: Seq<Option<String>>) -> Seq<Seq<char>>
    decreases errors.len(),
{
    if errors.len() == 0 {
        Seq::empty()
    } else {
        let p = present_messages(errors.drop_last());
        match errors.last() {
            Some(m) => p.push(m@),
            None => p,
        }
    }
}

/// The parts joined with the separator between each two.
pub open spec fn joined(parts: Seq<Seq<char>>, sep: Seq<char>) -> Seq<char>
    decreases parts.len(),
{
    if parts.len() == 0 {
        Seq::empty()
    } else if parts.len() == 1 {
        parts[0]
    } else {
        joined(parts.drop_last(), sep) + sep + parts.last()
    }
}

/// The error of an answer whose `errors` field is a list, given as the text
/// message of each of its errors: none when the field is missing, is not a
/// list or is empty; else "monday.com API errors: " and the messages joined
/// with "; ".
pub fn api_error_message(errors: &Option<Vec<Option<String>>>) -> (r: Option<String>)
    ensures
        match errors {
            Some(v) => if v@.len() > 0 {
                r matches Some(m) && m@ == "monday.com API errors: "@ + joined(present_messages(v@), "; "@)
            } else {
                r is None
            },
            None => r is None,
        },
{
    match errors {
        None => None,
        Some(v) => {
            if v.len() == 0 {
                return None;
            }
            let mut body = String::new();
            let mut count: usize = 0;
            let n = v.len();
            for i in 0..n
                invariant
                    n == v@.len(),
                    count <= i,
                    count == present_messages(v@.subrange(0, i as int)).len(),
                    body@ == joined(present_messages(v@.subrange(0, i as int)), "; "@),
            {
                let ghost pre = v@.subrange(0, i as int);
                let ghost cur = v@.subrange(0, i + 1);
                assert(cur.drop_last() =~= pre);
                assert(cur.last() == v@[i as int]);
                match &v[i] {
                    Some(m) => {
                        let ghost ps = present_messages(pre);
                        assert(ps.push(m@).drop_last() =~= ps);
                        if count > 0 {
                            let b1 = join2(body.as_str(), "; ");
                            body = join2(b1.as_str(), m.as_str());
                        } else {
                            body = String::from_str(m.as_str());
                        }
                        count = count + 1;
                    },
                    None => {},
                }
            }
            assert(v@.subrange(0, n as int) =~= v@);
            Some(join2("monday.com API errors: ", body.as_str()))
        },
    }
}

} // verus!
