//! Reading the distribution version codename out of an os-release
//! file's text.

use vstd::prelude::*;

use crate::error::Error;
use crate::text::find_from;
use crate::text::lines_spec;
use crate::text::trim_spec;

verus! {

use vstd::string::StrSliceExecFns;
use vstd::string::StringExecFns;

/// The codename the os-release lines carry: the trimmed value of the
/// first `VERSION_CODENAME=` line.  Lines without `=` are skipped.
pub open spec fn codename_from(lines: Seq<Seq<char>>, i: int) -> Option<Seq<char>>
    decreases lines.len() - i,
{
    if i < 0 || i >= lines.len() {
        None
    } else {
        let l = lines[i];
        let e = find_from(l, '=', 0);
        if e < l.len() && trim_spec(l.take(e)) == "VERSION_CODENAME"@ {
            Some(trim_spec(l.skip(e + 1)))
        } else {
            codename_from(lines, i + 1)
        }
    }
}

/// Read the distribution version codename from the text of an
/// os-release file.
///
/// Returns the could-not-infer-suite error exactly when no line of the
/// file holds a `VERSION_CODENAME` key.
#[verifier::loop_isolation(false)]
pub fn parse_etc_os_release(content: &str) -> (r: Result<String, Error>)
    ensures
        r matches Ok(s) ==> codename_from(lines_spec(content@), 0) == Some(s@),
        r matches Err(e) ==> e == Error::CouldNotInferSuite && codename_from(
            lines_spec(content@),
            0,
        ) is None,
{
    let lines = crate::text::split_lines(content);
    let ghost ldv = lines_spec(content@);
    let mut li: usize = 0;
    while li < lines.len()
        invariant
            0 <= li <= lines@.len(),
            codename_from(ldv, 0) == codename_from(ldv, li as int),
        decreases lines@.len() - li,
    {
        let n = lines[li].unicode_len();
        let e = crate::text::scan_char(lines[li].as_str(), '=', 0);
        proof {
            assert(lines[li as int]@ == ldv[li as int]);
        }
        if e < n {
            let key = crate::text::trim(lines[li].as_str().substring_char(0, e));
            proof {
                assert(key@ == trim_spec(ldv[li as int].take(e as int)));
            }
            if crate::text::str_eq(key, "VERSION_CODENAME") {
                let value = crate::text::trim(lines[li].as_str().substring_char(e + 1, n));
                proof {
                    assert(value@ == trim_spec(ldv[li as int].skip(e + 1)));
                }
                return Ok(String::from_str(value));
            }
        }
        li = li + 1;
    }
    Err(Error::CouldNotInferSuite)
}

} // verus!
