//! Where a reference points, and the fingerprinted name of an asset.

use vstd::prelude::*;
use vstd::string::*;
use crate::hex::{hex8, to_hex8};
use crate::xxhash::{xx_hash32, xxh32};

verus! {

/// `s` without its leading `/` characters.
pub open spec fn trim_leading_slashes(s: Seq<char>) -> Seq<char>
    decreases s.len(),
{
    if s.len() > 0 && s[0] == '/' {
        trim_leading_slashes(s.drop_first())
    } else {
        s
    }
}

/// `rel`, a path that does not start with `/`, appended to `base`, with one
/// `/` between them unless `base` is empty or already ends with one.
pub open spec fn join(base: Seq<char>, rel: Seq<char>) -> Seq<char> {
    if base.len() == 0 || base.last() == '/' {
        base + rel
    } else {
        base + seq!['/'] + rel
    }
}

/// The file path that a reference found in a document stands for: a
/// reference that starts with `/` is taken relative to `base`, any other
/// reference is kept as it is.
pub open spec fn resolve(reference: Seq<char>, base: Seq<char>) -> Seq<char> {
    if reference.len() > 0 && reference[0] == '/' {
        join(base, trim_leading_slashes(reference))
    } else {
        reference
    }
}

/// The number of `c` characters at the start of `s`.
pub open spec fn leading_count(s: Seq<char>, c: char) -> nat
    decreases s.len(),
{
    if s.len() > 0 && s[0] == c {
        1 + leading_count(s.drop_first(), c)
    } else {
        0
    }
}

proof fn lemma_trim_is_skip(s: Seq<char>)
    ensures
        leading_count(s, '/') <= s.len(),
        trim_leading_slashes(s) == s.skip(leading_count(s, '/') as int),
        forall|i: int| 0 <= i < leading_count(s, '/') ==> s[i] == '/',
        leading_count(s, '/') < s.len() ==> s[leading_count(s, '/') as int] != '/',
    decreases s.len(),
{
    if s.len() > 0 && s[0] == '/' {
        lemma_trim_is_skip(s.drop_first());
        assert(s.drop_first().skip(leading_count(s.drop_first(), '/') as int) =~= s.skip(
            leading_count(s, '/') as int,
        ));
        assert forall|i: int| 0 <= i < leading_count(s, '/') implies s[i] == '/' by {
            if i > 0 {
                assert(s[i] == s.drop_first()[i - 1]);
            }
        }
    } else {
        assert(s.skip(0) =~= s);
    }
}

proof fn lemma_leading_count_step(s: Seq<char>, k: int)
    requires
        0 <= k < s.len(),
        forall|i: int| 0 <= i < k ==> s[i] == '/',
    ensures
        s[k] != '/' ==> leading_count(s, '/') == k,
        s[k] == '/' ==> forall|i: int| 0 <= i < k + 1 ==> s[i] == '/',
    decreases k,
{
    if k > 0 {
        lemma_leading_count_step(s.drop_first(), k - 1);
    }
}

/// The path that `file_path`, a reference found in a document, stands for,
/// with root-relative references taken under `base_path`.
pub fn get_file_path(file_path: &str, base_path: &str) -> (r: String)
    ensures
        r@ == resolve(file_path@, base_path@),
{
    let n = file_path.unicode_len();
    if n > 0 && file_path.get_char(0) == '/' {
        let mut k: usize = 0;
        while k < n && file_path.get_char(k) == '/'
            invariant
                n == file_path@.len(),
                k <= n,
                forall|i: int| 0 <= i < k ==> file_path@[i] == '/',
            decreases n - k,
        {
            k = k + 1;
        }
        proof {
            lemma_trim_is_skip(file_path@);
            if k < n {
                lemma_leading_count_step(file_path@, k as int);
            } else {
                lemma_all_slashes(file_path@);
            }
        }
        let rest = file_path.substring_char(k, n);
        assert(rest@ =~= file_path@.skip(k as int));
        join_exec(base_path, rest)
    } else {
        String::from_str(file_path)
    }
}

proof fn lemma_all_slashes(s: Seq<char>)
    requires
        forall|i: int| 0 <= i < s.len() ==> s[i] == '/',
    ensures
        leading_count(s, '/') == s.len(),
    decreases s.len(),
{
    if s.len() > 0 {
        lemma_all_slashes(s.drop_first());
    }
}

/// `rel` appended to `base` as a path.
pub(crate) fn join_exec(base: &str, rel: &str) -> (r: String)
    ensures
        r@ == join(base@, rel@),
{
    let mut r = String::from_str(base);
    let bn = base.unicode_len();
    if bn > 0 && base.get_char(bn - 1) != '/' {
        r.append("/");
        proof {
            reveal_strlit("/");
        }
    }
    r.append(rel);
    proof {
        if bn > 0 && base@.last() != '/' {
            assert(base@ + seq!['/'] + rel@ =~= r@);
        }
    }
    r
}

/// The index of the last `c` in `s`, or -1 where there is none.
pub open spec fn last_index(s: Seq<char>, c: char) -> int
    decreases s.len(),
{
    if s.len() == 0 {
        -1
    } else if s.last() == c {
        s.len() - 1
    } else {
        last_index(s.drop_last(), c)
    }
}

/// The final component of `path`: all that follows its last `/`.
pub open spec fn file_name(path: Seq<char>) -> Seq<char> {
    path.subrange(last_index(path, '/') + 1, path.len() as int)
}

/// A file name split at its last `.` into stem and extension; none where
/// the name has no `.`, where its only `.` is its first character, and for
/// the name `..`.
pub open spec fn stem_and_extension(name: Seq<char>) -> Option<(Seq<char>, Seq<char>)> {
    let j = last_index(name, '.');
    if name == seq!['.', '.'] || j <= 0 {
        None
    } else {
        Some((name.subrange(0, j), name.subrange(j + 1, name.len() as int)))
    }
}

/// The name under which the asset at `path` is stored once its content has
/// the digest `digest`: `{stem}_{hex}.{extension}`, where the file name of
/// `path` has a stem and an extension.
pub open spec fn fingerprinted(path: Seq<char>, digest: u32) -> Option<Seq<char>> {
    match stem_and_extension(file_name(path)) {
        Some((stem, ext)) => Some(stem + seq!['_'] + hex8(digest) + seq!['.'] + ext),
        None => None,
    }
}

proof fn lemma_last_index_prefix(s: Seq<char>, c: char, i: int)
    requires
        0 <= i <= s.len(),
        forall|j: int| i <= j < s.len() ==> s[j] != c,
    ensures
        last_index(s, c) == last_index(s.subrange(0, i), c),
    decreases s.len() - i,
{
    if i == s.len() {
        assert(s.subrange(0, i) =~= s);
    } else {
        lemma_last_index_prefix(s.drop_last(), c, i);
        assert(s.drop_last().subrange(0, i) =~= s.subrange(0, i));
    }
}

proof fn lemma_last_index_bounds(s: Seq<char>, c: char)
    ensures
        -1 <= last_index(s, c) < s.len(),
        last_index(s, c) >= 0 ==> s[last_index(s, c)] == c,
    decreases s.len(),
{
    if s.len() > 0 && s.last() != c {
        lemma_last_index_bounds(s.drop_last(), c);
    }
}

/// The index of the last `c` in `s`, if there is one.
fn find_last(s: &str, c: char) -> (r: Option<usize>)
    ensures
        r is Some <==> last_index(s@, c) >= 0,
        r is Some ==> r->0 == last_index(s@, c) && r->0 < s@.len(),
{
    let n = s.unicode_len();
    let mut i: usize = n;
    while i > 0 && s.get_char(i - 1) != c
        invariant
            n == s@.len(),
            i <= n,
            forall|j: int| i <= j < n ==> s@[j] != c,
        decreases i,
    {
        i = i - 1;
    }
    proof {
        lemma_last_index_prefix(s@, c, i as int);
        if i > 0 {
            assert(s@.subrange(0, i as int).last() == c);
        }
    }
    if i == 0 {
        None
    } else {
        Some(i - 1)
    }
}

/// The fingerprinted name of the asset at `path` for the digest `digest`,
/// or none where the file name of `path` lacks a stem or an extension.
pub fn fingerprinted_name(path: &str, digest: u32) -> (r: Option<String>)
    ensures
        r is Some <==> fingerprinted(path@, digest) is Some,
        r is Some ==> r->0@ == fingerprinted(path@, digest)->0,
{
    let n = path.unicode_len();
    let start: usize = match find_last(path, '/') {
        Some(k) => k + 1,
        None => 0,
    };
    proof {
        lemma_last_index_bounds(path@, '/');
    }
    let name = path.substring_char(start, n);
    assert(name@ == file_name(path@));
    let m = name.unicode_len();
    let dot = find_last(name, '.');
    proof {
        lemma_last_index_bounds(name@, '.');
    }
    let is_dotdot = m == 2 && name.get_char(0) == '.' && name.get_char(1) == '.';
    assert(is_dotdot <==> name@ == seq!['.', '.']) by {
        if name@ == seq!['.', '.'] {
            assert(name@[0] == '.' && name@[1] == '.');
        }
        if is_dotdot {
            assert(name@ =~= seq!['.', '.']);
        }
    }
    match dot {
        Some(j) => {
            if is_dotdot || j == 0 {
                None
            } else {
                let stem = name.substring_char(0, j);
                let ext = name.substring_char(j + 1, m);
                let hex = to_hex8(digest);
                let mut r = String::from_str(stem);
                r.append("_");
                r.append(hex.as_str());
                r.append(".");
                r.append(ext);
                proof {
                    reveal_strlit("_");
                    reveal_strlit(".");
                    assert(r@ =~= stem@ + seq!['_'] + hex8(digest) + seq!['.'] + ext@);
                }
                Some(r)
            }
        },
        None => None,
    }
}

/// The fingerprinted name of the asset at `path` whose content is
/// `content`, or none where the file name of `path` lacks a stem or an
/// extension.
pub fn fingerprint(path: &str, content: &[u8]) -> (r: Option<String>)
    ensures
        r is Some <==> fingerprinted(path@, xxh32(content@)) is Some,
        r is Some ==> r->0@ == fingerprinted(path@, xxh32(content@))->0,
{
    let digest = xx_hash32(content);
    fingerprinted_name(path, digest)
}

/// Whether `name` is already the fingerprinted name of content with digest
/// `digest`: it has a stem and an extension, and its stem ends in `_`
/// followed by the hexadecimal digest.
pub open spec fn already_fingerprinted(name: Seq<char>, digest: u32) -> bool {
    match stem_and_extension(name) {
        Some((stem, _ext)) => stem.len() >= 9 && stem.subrange(stem.len() - 9, stem.len() as int)
            == seq!['_'] + hex8(digest),
        None => false,
    }
}

/// Whether the file name of `path` is already the fingerprinted name of
/// content with digest `digest`.
pub fn is_fingerprinted(path: &str, digest: u32) -> (r: bool)
    ensures
        r == already_fingerprinted(file_name(path@), digest),
{
    let n = path.unicode_len();
    let start: usize = match find_last(path, '/') {
        Some(k) => k + 1,
        None => 0,
    };
    proof {
        lemma_last_index_bounds(path@, '/');
    }
    let name = path.substring_char(start, n);
    assert(name@ == file_name(path@));
    let m = name.unicode_len();
    let dot = find_last(name, '.');
    proof {
        lemma_last_index_bounds(name@, '.');
    }
    let is_dotdot = m == 2 && name.get_char(0) == '.' && name.get_char(1) == '.';
    assert(is_dotdot <==> name@ == seq!['.', '.']) by {
        if name@ == seq!['.', '.'] {
            assert(name@[0] == '.' && name@[1] == '.');
        }
        if is_dotdot {
            assert(name@ =~= seq!['.', '.']);
        }
    }
    match dot {
        Some(j) => {
            if is_dotdot || j < 9 {
                proof {
                    if !is_dotdot && j > 0 {
                        assert(name@.subrange(0, j as int).len() < 9);
                    }
                }
                false
            } else {
                let tail = name.substring_char(j - 9, j);
                let hex = to_hex8(digest);
                let mut expected = String::from_str("_");
                expected.append(hex.as_str());
                proof {
                    reveal_strlit("_");
                    assert(tail@ =~= name@.subrange(0, j as int).subrange(j - 9, j as int));
                    assert(expected@ =~= seq!['_'] + hex8(digest));
                    assert(stem_and_extension(name@) == Some(
                        (name@.subrange(0, j as int), name@.subrange(j + 1, m as int)),
                    ));
                }
                let found = String::from_str(tail);
                found == expected
            }
        },
        None => false,
    }
}

proof fn lemma_after_last_index(s: Seq<char>, c: char)
    ensures
        forall|i: int| last_index(s, c) < i < s.len() ==> s[i] != c,
    decreases s.len(),
{
    if s.len() > 0 && s.last() != c {
        lemma_after_last_index(s.drop_last(), c);
        lemma_last_index_bounds(s.drop_last(), c);
        assert forall|i: int| last_index(s, c) < i < s.len() implies s[i] != c by {
            if i < s.len() - 1 {
                assert(s[i] == s.drop_last()[i]);
            }
        }
    }
}

proof fn lemma_no_index(s: Seq<char>, c: char)
    requires
        forall|i: int| 0 <= i < s.len() ==> s[i] != c,
    ensures
        last_index(s, c) == -1,
{
    lemma_last_index_prefix(s, c, 0);
}

proof fn lemma_hex8_digits(d: u32)
    ensures
        forall|i: int| 0 <= i < 8 ==> hex8(d)[i] != '/' && hex8(d)[i] != '.',
{
    assert forall|i: int| 0 <= i < 8 implies hex8(d)[i] != '/' && hex8(d)[i] != '.' by {
        let s = (28 - 4 * i) as u32;
        assert((d >> s) & 15u32 < 16) by (bit_vector);
    }
}

/// Equal content gets an equal digest, and assets with one file name get
/// one fingerprinted name for it, in any run.
pub proof fn lemma_fingerprint_deterministic(p: Seq<char>, q: Seq<char>, a: Seq<u8>, b: Seq<u8>)
    requires
        a == b,
        file_name(p) == file_name(q),
    ensures
        xxh32(a) == xxh32(b),
        fingerprinted(p, xxh32(a)) == fingerprinted(q, xxh32(b)),
{
}

/// Rerunning leaves a fingerprinted asset as it is: its new name is a
/// reference that resolves to itself, and the copy under that name, whose
/// content is unchanged, is recognised as already fingerprinted.
pub proof fn lemma_rerun_recognises(path: Seq<char>, content: Seq<u8>, base: Seq<char>)
    requires
        fingerprinted(path, xxh32(content)) is Some,
    ensures
        ({
            let n = fingerprinted(path, xxh32(content))->0;
            &&& resolve(n, base) == n
            &&& file_name(n) == n
            &&& already_fingerprinted(file_name(resolve(n, base)), xxh32(content))
        }),
{
    let d = xxh32(content);
    let name = file_name(path);
    let j = last_index(name, '.');
    let stem = name.subrange(0, j);
    let ext = name.subrange(j + 1, name.len() as int);
    let h = hex8(d);
    let n = stem + seq!['_'] + h + seq!['.'] + ext;
    lemma_last_index_bounds(path, '/');
    lemma_after_last_index(path, '/');
    lemma_last_index_bounds(name, '.');
    lemma_after_last_index(name, '.');
    lemma_hex8_digits(d);
    assert(forall|i: int| 0 <= i < name.len() ==> name[i] != '/');
    assert(n == fingerprinted(path, d)->0);
    assert forall|i: int| 0 <= i < n.len() implies n[i] != '/' by {
        if i < stem.len() {
            assert(n[i] == name[i]);
        } else if stem.len() + 1 <= i < stem.len() + 9 {
            assert(n[i] == h[i - stem.len() - 1]);
        } else if i >= stem.len() + 10 {
            assert(n[i] == name[i - stem.len() - 10 + j + 1]);
        }
    }
    lemma_no_index(n, '/');
    assert(file_name(n) =~= n);
    assert(n[0] == name[0]);
    let k = stem.len() + 9int;
    assert forall|i: int| k < i < n.len() implies n[i] != '.' by {
        assert(n[i] == name[i - stem.len() - 10 + j + 1]);
    }
    lemma_last_index_prefix(n, '.', k + 1);
    assert(n.subrange(0, k + 1).last() == '.');
    assert(last_index(n, '.') == k);
    assert(n != seq!['.', '.']) by {
        assert(n.len() >= 11);
    }
    let s2 = n.subrange(0, k);
    assert(s2 =~= stem + seq!['_'] + h);
    assert(s2.subrange(s2.len() - 9, s2.len() as int) =~= seq!['_'] + h);
}

} // verus!
