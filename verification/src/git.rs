//! The name of the directory that a repository is cloned into.

use vstd::prelude::*;
use vstd::string::*;
use crate::error::{result_view, ErrorView, RazdError};
use crate::text::{chars_of, trim, trim_of};

verus! {

/// Whether `s` ends in `.git`.
pub open spec fn ends_in_git(s: Seq<char>) -> bool {
    s.len() >= 4 && s[s.len() - 4] == '.' && s[s.len() - 3] == 'g' && s[s.len() - 2] == 'i'
        && s[s.len() - 1] == 't'
}

/// `s` without every `.git` that it ends in.
pub open spec fn without_git(s: Seq<char>) -> Seq<char>
    decreases s.len(),
{
    if ends_in_git(s) {
        without_git(s.take(s.len() - 4))
    } else {
        s
    }
}

/// What follows the last `/` of `s`; all of `s` where it holds no `/`.
pub open spec fn after_last_slash(s: Seq<char>) -> Seq<char>
    decreases s.len(),
{
    if s.len() == 0 {
        s
    } else if s.last() == '/' {
        Seq::empty()
    } else {
        after_last_slash(s.drop_last()).push(s.last())
    }
}

/// The name of the repository at `url`: the white space around the URL and
/// every `.git` at its end are dropped, and what follows the last `/` is the
/// name. A URL that leaves no name is refused.
pub open spec fn repo_name_of(url: Seq<char>) -> Result<Seq<char>, ErrorView> {
    let name = after_last_slash(without_git(trim_of(url)));
    if name.len() == 0 {
        Err(ErrorView::InvalidUrl("Could not extract repository name from URL"@))
    } else {
        Ok(name)
    }
}

/// The name of the repository at `url`.
pub fn extract_repo_name(url: &str) -> (r: Result<String, RazdError>)
    ensures
        result_view(r) == repo_name_of(url@),
{
    let t = trim(url);
    let v = chars_of(t);
    let mut n: usize = v.len();
    assert(t@.take(n as int) == t@);
    while n >= 4 && v[n - 4] == '.' && v[n - 3] == 'g' && v[n - 2] == 'i' && v[n - 1] == 't'
        invariant
            v@ == t@,
            n <= v.len(),
            without_git(t@) == without_git(t@.take(n as int)),
        decreases n,
    {
        assert(t@.take(n as int).take(n - 4) == t@.take(n - 4));
        n = n - 4;
    }
    let ghost base = t@.take(n as int);
    assert(without_git(t@) == base);
    let mut k: usize = n;
    assert(base.take(k as int) == base);
    assert(base.skip(k as int) == Seq::<char>::empty());
    assert(after_last_slash(base) == after_last_slash(base.take(k as int)) + base.skip(k as int));
    while k > 0 && v[k - 1] != '/'
        invariant
            v@ == t@,
            n <= v.len(),
            base == t@.take(n as int),
            k <= n,
            after_last_slash(base) == after_last_slash(base.take(k as int)) + base.skip(k as int),
        decreases k,
    {
        proof {
            let head = base.take(k as int);
            assert(head.last() == t@[k - 1]);
            assert(head.drop_last() == base.take(k - 1));
            assert(after_last_slash(head) == after_last_slash(base.take(k - 1)).push(t@[k - 1]));
            assert(after_last_slash(base.take(k - 1)).push(t@[k - 1]) + base.skip(k as int)
                == after_last_slash(base.take(k - 1)) + base.skip(k - 1));
        }
        k = k - 1;
    }
    proof {
        let head = base.take(k as int);
        if k > 0 {
            assert(head.last() == t@[k - 1]);
        }
        assert(after_last_slash(head) == Seq::<char>::empty());
        assert(after_last_slash(base) == base.skip(k as int));
        assert(base.skip(k as int) == t@.subrange(k as int, n as int));
    }
    if k == n {
        return Err(RazdError::invalid_url("Could not extract repository name from URL"));
    }
    Ok(String::from_str(t.substring_char(k, n)))
}

/// The directory that a clone goes to: the name that was asked for, or the
/// name of the repository.
pub fn clone_target(url: &str, target_dir: Option<&str>) -> (r: Result<String, RazdError>)
    ensures
        result_view(r) == match target_dir {
            Some(name) => Ok(name@),
            None => repo_name_of(url@),
        },
{
    match target_dir {
        Some(name) => Ok(String::from_str(name)),
        None => extract_repo_name(url),
    }
}

} // verus!
