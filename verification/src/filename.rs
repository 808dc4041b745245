//! Names of received files: a name already taken gets a counter between its
//! stem and its extension (`photo-1.jpg`, `photo-2.jpg`, ...), and each
//! resource of a transfer gets the first name not taken yet; folders arrive
//! zipped.

use vstd::prelude::*;

use crate::decimal::{all_digits, decimal, decimal_string, digit_value, digits_value, is_digit};
use crate::text::{push_str, str_eq};

verus! {

/// Whether `part` occurs in `s` as a contiguous piece.
pub open spec fn occurs_in(part: Seq<char>, s: Seq<char>) -> bool {
    exists|i: int| 0 <= i && i + part.len() <= s.len() && #[trigger] s.subrange(i, i + part.len()) == part
}

/// Whether `name` is a plain file name: not empty, not `.` or `..`, and
/// free of `/`, backslash and `:`, so that on every platform the path it names
/// has one component, the name itself, and no prefix.
pub open spec fn plain_file_name(name: Seq<char>) -> bool {
    &&& name.len() > 0
    &&& name != seq!['.']
    &&& name != seq!['.', '.']
    &&& !name.contains('/')
    &&& !name.contains('\\')
    &&& !name.contains(':')
}

/// The position of the last `.` in `s`, or -1 where it has none.
pub open spec fn last_dot(s: Seq<char>) -> int
    decreases s.len(),
{
    if s.len() == 0 {
        -1
    } else if s.last() == '.' {
        s.len() - 1
    } else {
        last_dot(s.drop_last())
    }
}

/// The stem of the file name `name`: the whole name where it has no dot, or
/// where its only dot is its first character; else the part before its last
/// dot.
pub open spec fn file_stem_of(name: Seq<char>) -> Seq<char> {
    if last_dot(name) <= 0 {
        name
    } else {
        name.subrange(0, last_dot(name))
    }
}

/// The extension of the file name `name`: none where the stem is the whole
/// name (see `file_stem_of`), else the part after its last dot.
pub open spec fn file_extension_of(name: Seq<char>) -> Option<Seq<char>> {
    if last_dot(name) <= 0 {
        None
    } else {
        Some(name.subrange(last_dot(name) + 1, name.len() as int))
    }
}

/// `std::path::Path::file_stem` of the path `name`, as text. A stem is a
/// piece of the path; for a plain file name (see `plain_file_name`) it is
/// the stem as the documentation of `file_stem` defines it. For other paths
/// which piece it is depends on the platform's path separators, which are
/// left unstated.
#[verifier::external_body]
fn path_file_stem(name: &str) -> (r: Option<String>)
    ensures
        r matches Some(s) ==> occurs_in(s@, name@),
        plain_file_name(name@) ==> r is Some,
        r matches Some(s) ==> (plain_file_name(name@) ==> s@ == file_stem_of(name@)),
{
    std::path::Path::new(name).file_stem().and_then(|s| s.to_str()).map(|s| s.to_string())
}

/// `std::path::Path::extension` of the path `name`, as text. An extension is
/// a piece of the path that holds no dot (it follows the file name's last
/// dot); for a plain file name (see `plain_file_name`) it is the extension
/// as the documentation of `extension` defines it. For other paths which
/// piece it is depends on the platform's path separators, which are left
/// unstated.
#[verifier::external_body]
fn path_extension(name: &str) -> (r: Option<String>)
    ensures
        r matches Some(e) ==> occurs_in(e@, name@) && !e@.contains('.'),
        r matches Some(e) ==> (plain_file_name(name@) ==> file_extension_of(name@) == Some(e@)),
        r is None && plain_file_name(name@) ==> file_extension_of(name@) is None,
{
    std::path::Path::new(name).extension().and_then(|e| e.to_str()).map(|e| e.to_string())
}

/// The name with counter `counter` for a file whose stem is `stem` and whose
/// extension is `ext`, if it has one.
pub open spec fn counted_name(stem: Seq<char>, ext: Option<Seq<char>>, counter: nat) -> Seq<char> {
    stem + "-"@ + decimal(counter) + match ext {
        Some(e) => "."@ + e,
        None => Seq::empty(),
    }
}

/// The name with counter `counter` for a file whose stem is `stem` and whose
/// extension is `ext` (see `counted_name`).
pub fn counted_file_name(stem: &str, ext: Option<&str>, counter: u32) -> (r: String)
    ensures
        r@ == counted_name(
            stem@,
            match ext {
                Some(e) => Some(e@),
                None => None,
            },
            counter as nat,
        ),
{
    let mut r = String::new();
    push_str(&mut r, stem);
    push_str(&mut r, "-");
    let digits = decimal_string(counter as u64);
    push_str(&mut r, digits.as_str());
    match ext {
        Some(e) => {
            push_str(&mut r, ".");
            push_str(&mut r, e);
        },
        None => {},
    }
    proof {
        reveal_strlit("-");
        reveal_strlit(".");
    }
    r
}

/// A new name for the file `original_name`, with counter `counter`: its
/// stem (or the whole name where it has none), a dash, the counter, and its
/// extension if it has one.
pub fn generate_new_filename(original_name: &str, counter: u32) -> (r: String)
    ensures
        exists|stem: Seq<char>, ext: Option<Seq<char>>|
            {
                &&& #[trigger] counted_name(stem, ext, counter as nat) == r@
                &&& (stem == original_name@ || occurs_in(stem, original_name@))
                &&& (ext matches Some(e) ==> occurs_in(e, original_name@) && !e.contains('.'))
            },
        plain_file_name(original_name@) ==> r@ == counted_name(
            file_stem_of(original_name@),
            file_extension_of(original_name@),
            counter as nat,
        ),
{
    let stem = path_file_stem(original_name);
    let ext = path_extension(original_name);
    let base: &str = match &stem {
        Some(s) => s.as_str(),
        None => original_name,
    };
    let e: Option<&str> = match &ext {
        Some(x) => Some(x.as_str()),
        None => None,
    };
    let r = counted_file_name(base, e, counter);
    let ghost ev = match ext {
        Some(x) => Some(x@),
        None => None,
    };
    assert(counted_name(base@, ev, counter as nat) == r@);
    r
}

proof fn lemma_decimal_value(n: nat)
    ensures
        all_digits(decimal(n)),
        digits_value(decimal(n)) == n,
        decimal(n).len() > 0,
    decreases n,
{
    if n < 10 {
        let d = decimal(n);
        assert(d.drop_last() =~= Seq::<char>::empty());
        assert(digits_value(Seq::<char>::empty()) == 0);
        assert(digit_value(d.last()) == n);
        assert(digits_value(d) == 10 * digits_value(d.drop_last()) + digit_value(d.last()));
    } else {
        lemma_decimal_value(n / 10);
        let d = decimal(n);
        assert(d.drop_last() =~= decimal(n / 10));
        vstd::arithmetic::div_mod::lemma_fundamental_div_mod(n as int, 10);
        assert(digits_value(d) == 10 * digits_value(d.drop_last()) + digit_value(d.last()));
        assert(digit_value(d.last()) == n % 10);
        assert(all_digits(d)) by {
            assert forall|i: int| 0 <= i < d.len() implies is_digit(#[trigger] d[i]) by {
                if i < d.len() - 1 {
                    assert(d[i] == decimal(n / 10)[i]);
                }
            }
        }
    }
}

proof fn lemma_counted_names_differ(stem: Seq<char>, ext: Option<Seq<char>>, a: nat, b: nat)
    requires
        a != b,
    ensures
        counted_name(stem, ext, a) != counted_name(stem, ext, b),
{
    reveal_strlit("-");
    reveal_strlit(".");
    lemma_decimal_value(a);
    lemma_decimal_value(b);
    let tail = match ext {
        Some(e) => "."@ + e,
        None => Seq::<char>::empty(),
    };
    let x = counted_name(stem, ext, a);
    let y = counted_name(stem, ext, b);
    let k: int = stem.len() as int + 1;
    assert(x == stem + "-"@ + decimal(a) + tail);
    assert(y == stem + "-"@ + decimal(b) + tail);
    assert(x.len() == stem.len() + 1 + decimal(a).len() + tail.len());
    assert(y.len() == stem.len() + 1 + decimal(b).len() + tail.len());
    if x == y {
        assert(decimal(a).len() == decimal(b).len());
        assert(x.subrange(k, k + decimal(a).len() as int) =~= decimal(a));
        assert(y.subrange(k, k + decimal(b).len() as int) =~= decimal(b));
    }
}

/// The name a received resource is saved under: its own name, with `.zip`
/// added for a folder.
pub open spec fn saved_name(resource_name: Seq<char>, is_folder: bool) -> Seq<char> {
    if is_folder {
        resource_name + ".zip"@
    } else {
        resource_name
    }
}

/// The names of `used`, as text.
pub open spec fn name_views(used: Seq<String>) -> Seq<Seq<char>> {
    used.map_values(|s: String| s@)
}

fn name_taken(used: &Vec<String>, name: &str) -> (r: bool)
    ensures
        r == name_views(used@).contains(name@),
{
    let mut i: usize = 0;
    while i < used.len()
        invariant
            i <= used@.len(),
            forall|j: int| 0 <= j < i ==> used@[j]@ != name@,
        decreases used@.len() - i,
    {
        if str_eq(used[i].as_str(), name) {
            assert(name_views(used@)[i as int] == name@);
            return true;
        }
        i += 1;
    }
    assert forall|j: int| 0 <= j < name_views(used@).len() implies name_views(used@)[j] != name@ by {
        assert(name_views(used@)[j] == used@[j]@);
    }
    false
}

/// The name a received resource is saved under, given the names already
/// taken in its transfer: its saved name (see `saved_name`) if that is free,
/// else the name with the smallest counter from 1 up that is free, counted
/// names being made from the stem and extension of the saved name.
pub fn unique_saved_name(resource_name: &str, is_folder: bool, used: &Vec<String>) -> (r: String)
    requires
        used@.len() < u32::MAX,
    ensures
        !name_views(used@).contains(r@),
        !name_views(used@).contains(saved_name(resource_name@, is_folder)) ==> r@ == saved_name(
            resource_name@,
            is_folder,
        ),
        name_views(used@).contains(saved_name(resource_name@, is_folder)) ==> exists|
            stem: Seq<char>,
            ext: Option<Seq<char>>,
            c: nat,
        |
            {
                &&& #[trigger] counted_name(stem, ext, c) == r@
                &&& 1 <= c
                &&& forall|d: nat| 1 <= d < c ==> name_views(used@).contains(#[trigger] counted_name(stem, ext, d))
                &&& (stem == saved_name(resource_name@, is_folder) || occurs_in(
                    stem,
                    saved_name(resource_name@, is_folder),
                ))
                &&& (ext matches Some(e) ==> occurs_in(e, saved_name(resource_name@, is_folder)) && !e.contains('.'))
            },
        name_views(used@).contains(saved_name(resource_name@, is_folder)) && plain_file_name(
            saved_name(resource_name@, is_folder),
        ) ==> exists|c: nat|
            {
                &&& r@ == counted_name(
                    file_stem_of(saved_name(resource_name@, is_folder)),
                    file_extension_of(saved_name(resource_name@, is_folder)),
                    c,
                )
                &&& 1 <= c
                &&& forall|d: nat|
                    1 <= d < c ==> name_views(used@).contains(
                        #[trigger] counted_name(
                            file_stem_of(saved_name(resource_name@, is_folder)),
                            file_extension_of(saved_name(resource_name@, is_folder)),
                            d,
                        ),
                    )
            },
{
    let mut final_name = String::new();
    push_str(&mut final_name, resource_name);
    if is_folder {
        push_str(&mut final_name, ".zip");
    }
    proof {
        reveal_strlit(".zip");
    }
    assert(final_name@ == saved_name(resource_name@, is_folder));
    if !name_taken(used, final_name.as_str()) {
        return final_name;
    }
    let stem = path_file_stem(final_name.as_str());
    let ext = path_extension(final_name.as_str());
    let base: &str = match &stem {
        Some(s) => s.as_str(),
        None => final_name.as_str(),
    };
    let e: Option<&str> = match &ext {
        Some(x) => Some(x.as_str()),
        None => None,
    };
    let ghost ev = match &ext {
        Some(x) => Some(x@),
        None => None,
    };
    let ghost names = name_views(used@);
    let mut counter: u32 = 1;
    let mut candidate = counted_file_name(base, e, counter);
    assert(ev == (match e {
        Some(x) => Some(x@),
        None => None,
    }));
    proof {
        broadcast use vstd::seq_lib::seq_to_set_is_finite;
    }
    while name_taken(used, candidate.as_str())
        invariant
            names == name_views(used@),
            names.len() == used@.len(),
            ev == (match e {
                Some(x) => Some(x@),
                None => None,
            }),
            used@.len() < u32::MAX,
            1 <= counter,
            candidate@ == counted_name(base@, ev, counter as nat),
            forall|d: nat| 1 <= d < counter ==> names.contains(#[trigger] counted_name(base@, ev, d)),
            counter - 1 <= names.len(),
        decreases names.len() + 1 - counter,
    {
        let ghost taken = Seq::new(counter as nat, |i: int| counted_name(base@, ev, (i + 1) as nat));
        proof {
            broadcast use vstd::seq_lib::seq_to_set_is_finite;

            assert forall|i: int, j: int| 0 <= i < taken.len() && 0 <= j < taken.len() && i != j implies taken[i]
                != taken[j] by {
                lemma_counted_names_differ(base@, ev, (i + 1) as nat, (j + 1) as nat);
            }
            assert(taken.no_duplicates());
            taken.unique_seq_to_set();
            assert(taken.to_set().subset_of(names.to_set())) by {
                assert forall|x: Seq<char>| taken.to_set().contains(x) implies names.to_set().contains(x) by {
                    let i = choose|i: int| 0 <= i < taken.len() && taken[i] == x;
                    if i + 1 < counter {
                        assert(names.contains(counted_name(base@, ev, (i + 1) as nat)));
                    }
                }
            }
            vstd::set_lib::lemma_len_subset(taken.to_set(), names.to_set());
            names.lemma_cardinality_of_set();
        }
        counter = counter + 1;
        candidate = counted_file_name(base, e, counter);
    }
    proof {
        let s = match &stem {
            Some(x) => x@,
            None => final_name@,
        };
        assert(base@ == s);
        assert(counted_name(base@, ev, counter as nat) == candidate@);
    }
    candidate
}

} // verus!
