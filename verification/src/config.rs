//! Build-time configuration values and what is read from them.
use vstd::prelude::*;

verus! {

/// The value of an optional build-time setting, or `default` where it was not set.
pub fn default_env(v: Option<&'static str>, default: &'static str) -> (r: &'static str)
    ensures
        r == (match v {
            Some(s) => s,
            None => default,
        }),
{
    match v {
        Some(v) => v,
        None => default,
    }
}

/// The suffix that marks the application id of a development build.
pub open spec fn devel_suffix() -> Seq<char> {
    seq!['.', 'D', 'e', 'v', 'e', 'l']
}

/// True when `s` ends with `suffix`.
pub open spec fn ends_with(s: Seq<char>, suffix: Seq<char>) -> bool {
    suffix.len() <= s.len() && s.subrange(s.len() - suffix.len(), s.len() as int) == suffix
}

/// Whether the application id names a development build (it ends with `.Devel`);
/// such a window carries the `devel` style class.
pub fn is_devel_app_id(app_id: &str) -> (r: bool)
    ensures
        r == ends_with(app_id@, devel_suffix()),
{
    let n = app_id.unicode_len();
    if n < 6 {
        return false;
    }
    let start = n - 6;
    let expected = ['.', 'D', 'e', 'v', 'e', 'l'];
    let mut i: usize = 0;
    while i < 6
        invariant
            n == app_id@.len(),
            n >= 6,
            start == n - 6,
            i <= 6,
            expected@ == devel_suffix(),
            forall|j: int| 0 <= j < i ==> app_id@[start + j] == devel_suffix()[j],
        decreases 6 - i,
    {
        if app_id.get_char(start + i) != expected[i] {
            assert(app_id@.subrange(start as int, n as int)[i as int] != devel_suffix()[i as int]);
            return false;
        }
        i = i + 1;
    }
    assert(app_id@.subrange(start as int, n as int) =~= devel_suffix());
    true
}

} // verus!
