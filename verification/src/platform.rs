//! The OS tag: the operating system name, refined on Linux with the
//! distribution identifier read from release information.

use vstd::prelude::*;

use crate::text::{find_char, str_eq};
use vstd::string::StringExecFns;

verus! {

/// Index of the first newline in `s`, or `s.len()` when there is none.
pub open spec fn first_nl(s: Seq<char>) -> nat
    decreases s.len(),
{
    if s.len() == 0 {
        0
    } else if s[0] == '\n' {
        0
    } else {
        1 + first_nl(s.skip(1))
    }
}

proof fn lemma_first_nl(s: Seq<char>)
    ensures
        first_nl(s) <= s.len(),
        forall|j: int| 0 <= j < first_nl(s) ==> s[j] != '\n',
        first_nl(s) < s.len() ==> s[first_nl(s) as int] == '\n',
    decreases s.len(),
{
    if s.len() > 0 && s[0] != '\n' {
        lemma_first_nl(s.skip(1));
        assert forall|j: int| 0 <= j < first_nl(s) implies s[j] != '\n' by {
            if j > 0 {
                assert(s.skip(1)[j - 1] != '\n');
            }
        }
    }
}

proof fn lemma_first_nl_is(s: Seq<char>, k: int)
    requires
        0 <= k <= s.len(),
        forall|j: int| 0 <= j < k ==> s[j] != '\n',
        k < s.len() ==> s[k] == '\n',
    ensures
        first_nl(s) == k,
    decreases s.len(),
{
    if s.len() > 0 && s[0] != '\n' {
        lemma_first_nl_is(s.skip(1), k - 1);
    }
}

/// The value after `ID=` on the first line of `s` that starts with `ID=`,
/// if any; lines are terminated by `\n`, with a `\r` before the terminator
/// dropped, as `str::lines` splits them.
pub open spec fn release_id(s: Seq<char>) -> Option<Seq<char>>
    decreases s.len(),
    via release_id_decreases
{
    if s.len() == 0 {
        None
    } else {
        let n = first_nl(s) as int;
        let raw = s.take(n);
        let line = if n < s.len() && raw.len() > 0 && raw.last() == '\r' {
            raw.drop_last()
        } else {
            raw
        };
        if line.len() >= 3 && line.subrange(0, 3) == "ID="@ {
            Some(line.skip(3))
        } else if n == s.len() {
            None
        } else {
            release_id(s.skip(n + 1))
        }
    }
}

#[via_fn]
proof fn release_id_decreases(s: Seq<char>) {
    lemma_first_nl(s);
}

/// The tag for the given operating system name and, when the name is
/// `linux`, the text of the release-information file when it could be read:
/// `<os>/<id>` when that text names a distribution, the bare name otherwise.
pub open spec fn os_tag_of(os: Seq<char>, release: Option<Seq<char>>) -> Seq<char> {
    if os == "linux"@ {
        match release {
            Some(contents) => match release_id(contents) {
                Some(id) => os + "/"@ + id,
                None => os,
            },
            None => os,
        }
    } else {
        os
    }
}

/// The value after `ID=` on the first line of `contents` starting with
/// `ID=`, if any.
pub fn find_release_id(contents: &str) -> (r: Option<String>)
    ensures
        match r {
            Some(id) => release_id(contents@) == Some(id@),
            None => release_id(contents@) is None,
        },
{
    let n = contents.unicode_len();
    let mut p: usize = 0;
    proof {
        assert(contents@.skip(0) =~= contents@);
    }
    while p < n
        invariant
            n == contents@.len(),
            p <= n,
            release_id(contents@.skip(p as int)) == release_id(contents@),
        decreases n - p,
    {
        let ghost tail = contents@.skip(p as int);
        let e = find_char(contents, '\n', p);
        proof {
            reveal_strlit("ID=");
            lemma_first_nl_is(tail, e as int - p as int);
        }
        // the line runs from p to e; drop a carriage return before a newline
        let mut le = e;
        if e < n && le > p {
            if contents.get_char(le - 1) == '\r' {
                le -= 1;
            }
        }
        let ghost raw = tail.take(e as int - p as int);
        let ghost line = contents@.subrange(p as int, le as int);
        proof {
            assert(raw =~= contents@.subrange(p as int, e as int));
            if e < n && raw.len() > 0 && raw.last() == '\r' {
                assert(line =~= raw.drop_last());
            } else {
                assert(line =~= raw);
            }
        }
        if le - p >= 3 && crate::text::matches_at(contents, "ID=", p) {
            proof {
                assert(line.subrange(0, 3) =~= contents@.subrange(p as int, p + 3));
            }
            let id = contents.substring_char(p + 3, le);
            proof {
                assert(id@ =~= line.skip(3));
                assert(release_id(tail) == Some(line.skip(3)));
            }
            return Some(String::from_str(id));
        }
        proof {
            assert(!(line.len() >= 3 && line.subrange(0, 3) == "ID="@)) by {
                if line.len() >= 3 && line.subrange(0, 3) == "ID="@ {
                    assert(contents@.subrange(p as int, p + 3) =~= line.subrange(0, 3));
                    assert(contents@.subrange(p as int, p + 3) =~= "ID="@.subrange(0, 3));
                    reveal_strlit("ID=");
                    assert("ID="@.subrange(0, 3) =~= "ID="@);
                }
            }
        }
        if e == n {
            proof {
                assert(release_id(tail) is None);
            }
            return None;
        }
        proof {
            assert(release_id(tail) == release_id(tail.skip(e as int - p as int + 1)));
            assert(tail.skip(e as int - p as int + 1) =~= contents@.skip(e as int + 1));
        }
        p = e + 1;
    }
    proof {
        assert(contents@.skip(p as int) =~= Seq::<char>::empty());
    }
    None
}

/// The OS tag for the operating system named `os`: on Linux, refined with
/// the distribution identifier found in `release` (the text of the
/// release-information file, when one could be read); otherwise `os` alone.
pub fn os_tag(os: &str, release: Option<&str>) -> (r: String)
    ensures
        r@ == os_tag_of(os@, crate::shell::opt_view(release)),
{
    if str_eq(os, "linux") {
        match release {
            Some(contents) => match find_release_id(contents) {
                Some(id) => String::from_str(os).concat("/").concat(id.as_str()),
                None => String::from_str(os),
            },
            None => String::from_str(os),
        }
    } else {
        String::from_str(os)
    }
}

}
