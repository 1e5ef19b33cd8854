//! Locating the NDI runtime directory from the `NDI_RUNTIME_DIR_Vx`
//! environment variables, newest runtime version first.
use vstd::prelude::*;

use crate::text::{chars_of, digit_char, trim, trim_chars};

verus! {

/// True iff `c` holds a value that is not empty once whitespace is trimmed.
pub open spec fn usable(c: Option<String>) -> bool {
    c matches Some(v) && trim(v@).len() > 0
}

/// The first usable candidate, in order.
pub open spec fn first_usable(c: Seq<Option<String>>) -> Option<String>
    decreases c.len(),
{
    if c.len() == 0 {
        None
    } else if usable(c[0]) {
        c[0]
    } else {
        first_usable(c.drop_first())
    }
}

/// The first usable candidate is usable, no earlier candidate is, and there
/// is none only when no candidate is usable.
pub proof fn lemma_first_usable_is_first(c: Seq<Option<String>>)
    ensures
        match first_usable(c) {
            Some(v) => exists|i: int|
                0 <= i < c.len() && c[i] == Some(v) && usable(c[i]) && forall|j: int|
                    0 <= j < i ==> !usable(#[trigger] c[j]),
            None => forall|i: int| 0 <= i < c.len() ==> !usable(#[trigger] c[i]),
        },
    decreases c.len(),
{
    if c.len() > 0 {
        let rest = c.drop_first();
        lemma_first_usable_is_first(rest);
        if !usable(c[0]) {
            match first_usable(rest) {
                Some(v) => {
                    let i = choose|i: int|
                        0 <= i < rest.len() && rest[i] == Some(v) && usable(rest[i]) && forall|j: int|
                            0 <= j < i ==> !usable(#[trigger] rest[j]);
                    assert(c[i + 1] == rest[i]);
                    assert forall|j: int| 0 <= j < i + 1 implies !usable(#[trigger] c[j]) by {
                        if j > 0 {
                            assert(c[j] == rest[j - 1]);
                        }
                    }
                },
                None => {
                    assert forall|i: int| 0 <= i < c.len() implies !usable(#[trigger] c[i]) by {
                        if i > 0 {
                            assert(c[i] == rest[i - 1]);
                        }
                    }
                },
            }
        }
    }
}

/// Picks the runtime directory from candidate values in priority order:
/// the first present value that is not blank.
pub fn pick_runtime_dir(candidates: &[Option<String>]) -> (r: Option<String>)
    ensures
        r == first_usable(candidates@),
{
    let n = candidates.len();
    let mut i: usize = 0;
    assert(candidates@.skip(0) =~= candidates@);
    while i < n
        invariant
            n == candidates@.len(),
            i <= n,
            first_usable(candidates@) == first_usable(candidates@.skip(i as int)),
        decreases n - i,
    {
        let ghost rest = candidates@.skip(i as int);
        assert(rest[0] == candidates@[i as int]);
        assert(rest.drop_first() =~= candidates@.skip(i + 1));
        match &candidates[i] {
            Some(v) => {
                let cs = chars_of(v.as_str());
                let t = trim_chars(&cs);
                if t.len() > 0 {
                    return Some(v.clone());
                }
            },
            None => {},
        }
        i = i + 1;
    }
    None
}

/// The name of the `i`-th runtime-directory variable, newest version first.
pub open spec fn runtime_dir_var(i: int) -> Seq<char> {
    if i == 0 {
        "NDI_RUNTIME_DIR_V6"@
    } else if i == 1 {
        "NDI_RUNTIME_DIR_V5"@
    } else if i == 2 {
        "NDI_RUNTIME_DIR_V4"@
    } else if i == 3 {
        "NDI_RUNTIME_DIR_V3"@
    } else {
        "NDI_RUNTIME_DIR_V2"@
    }
}

/// The runtime-directory variables are `NDI_RUNTIME_DIR_V6` down to
/// `NDI_RUNTIME_DIR_V2`: the `i`-th is `NDI_RUNTIME_DIR_V` followed by the
/// digit `6 - i`, so every version from 6 to 2 is consulted, newest first,
/// each once.
pub proof fn lemma_runtime_dir_vars()
    ensures
        forall|i: int|
            0 <= i < RUNTIME_DIR_VAR_COUNT ==> #[trigger] runtime_dir_var(i) == "NDI_RUNTIME_DIR_V"@.push(
                digit_char((6 - i) as nat),
            ),
        forall|i: int, j: int|
            0 <= i < j < RUNTIME_DIR_VAR_COUNT ==> runtime_dir_var(i) != runtime_dir_var(j),
{
    reveal_strlit("NDI_RUNTIME_DIR_V");
    reveal_strlit("NDI_RUNTIME_DIR_V6");
    reveal_strlit("NDI_RUNTIME_DIR_V5");
    reveal_strlit("NDI_RUNTIME_DIR_V4");
    reveal_strlit("NDI_RUNTIME_DIR_V3");
    reveal_strlit("NDI_RUNTIME_DIR_V2");
    assert forall|i: int|
        0 <= i < RUNTIME_DIR_VAR_COUNT implies #[trigger] runtime_dir_var(i)
            == "NDI_RUNTIME_DIR_V"@.push(digit_char((6 - i) as nat)) by {
        assert(runtime_dir_var(i) =~= "NDI_RUNTIME_DIR_V"@.push(digit_char((6 - i) as nat)));
    }
    assert forall|i: int, j: int|
        0 <= i < j < RUNTIME_DIR_VAR_COUNT implies runtime_dir_var(i) != runtime_dir_var(j) by {
        let a = runtime_dir_var(i);
        let b = runtime_dir_var(j);
        assert(a[17] == digit_char((6 - i) as nat));
        assert(b[17] == digit_char((6 - j) as nat));
    }
}

/// The number of runtime-directory variables consulted.
pub const RUNTIME_DIR_VAR_COUNT: usize = 5;

/// The name of the `i`-th runtime-directory variable, newest version first.
pub fn runtime_dir_var_name(i: usize) -> (r: &'static str)
    requires
        i < RUNTIME_DIR_VAR_COUNT,
    ensures
        r@ == runtime_dir_var(i as int),
{
    if i == 0 {
        "NDI_RUNTIME_DIR_V6"
    } else if i == 1 {
        "NDI_RUNTIME_DIR_V5"
    } else if i == 2 {
        "NDI_RUNTIME_DIR_V4"
    } else if i == 3 {
        "NDI_RUNTIME_DIR_V3"
    } else {
        "NDI_RUNTIME_DIR_V2"
    }
}

/// `v` is a value that `get` returns for the `i`-th runtime-directory
/// variable.
pub open spec fn looked_up_at<F: Fn(&str) -> Option<String>>(get: F, i: int, v: Option<String>) -> bool {
    exists|k: &str| k@ == runtime_dir_var(i) && #[trigger] get.ensures((k,), v)
}

/// `vals` are values that `get` returns for the runtime-directory variables,
/// in order.
pub open spec fn looked_up<F: Fn(&str) -> Option<String>>(get: F, vals: Seq<Option<String>>) -> bool {
    &&& vals.len() == RUNTIME_DIR_VAR_COUNT
    &&& forall|i: int|
        0 <= i < RUNTIME_DIR_VAR_COUNT ==> #[trigger] looked_up_at(get, i, vals[i])
}

/// Resolves the runtime directory by looking up each runtime-directory
/// variable with `get`, newest version first, and picking the first value
/// that is present and not blank.
pub fn resolve_runtime_dir<F: Fn(&str) -> Option<String>>(get: F) -> (r: Option<String>)
    requires
        forall|k: &str| #[trigger] get.requires((k,)),
    ensures
        exists|vals: Seq<Option<String>>| looked_up(get, vals) && r == first_usable(vals),
{
    let mut candidates: Vec<Option<String>> = Vec::new();
    let ghost mut keys: Seq<&str> = Seq::empty();
    let mut i: usize = 0;
    while i < RUNTIME_DIR_VAR_COUNT
        invariant
            i <= RUNTIME_DIR_VAR_COUNT,
            candidates@.len() == i,
            keys.len() == i,
            forall|k: &str| #[trigger] get.requires((k,)),
            forall|j: int|
                0 <= j < i ==> (#[trigger] keys[j])@ == runtime_dir_var(j) && get.ensures(
                    (keys[j],),
                    candidates@[j],
                ),
        decreases RUNTIME_DIR_VAR_COUNT - i,
    {
        let key = runtime_dir_var_name(i);
        let v = get(key);
        candidates.push(v);
        proof {
            keys = keys.push(key);
        }
        i = i + 1;
    }
    let slice = candidates.as_slice();
    let r = pick_runtime_dir(slice);
    assert(slice@ == candidates@);
    let ghost vals = candidates@;
    assert forall|i: int| 0 <= i < RUNTIME_DIR_VAR_COUNT implies #[trigger] looked_up_at(
        get,
        i,
        vals[i],
    ) by {
        assert(keys[i]@ == runtime_dir_var(i) && get.ensures((keys[i],), vals[i]));
    }
    assert(r == first_usable(vals));
    assert(looked_up(get, vals));
    r
}


} // verus!
