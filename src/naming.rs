//! Stored file names: `<uuid>.<extension>`, where the uuid is a random
//! version-4 identifier in its hyphenated form and the extension comes from
//! the client's original file name, or is `unknown`.

use vstd::prelude::*;

verus! {

/// The sixteen lower-case hexadecimal digits, in order of value.
pub open spec fn hex_digits() -> Seq<char> {
    seq!['0', '1', '2', '3', '4', '5', '6', '7', '8', '9', 'a', 'b', 'c', 'd', 'e', 'f']
}

/// The `j`-th hexadecimal digit of `id`, counted from the most significant.
pub open spec fn nibble(id: u128, j: int) -> u128 {
    (id >> ((124 - 4 * j) as u128)) & 0xf
}

/// Whether position `i` of the hyphenated form holds a hyphen.
pub open spec fn is_hyphen_pos(i: int) -> bool {
    i == 8 || i == 13 || i == 18 || i == 23
}

/// Which hexadecimal digit of the identifier position `i` of the hyphenated
/// form shows.
pub open spec fn digit_at(i: int) -> int {
    if i < 8 {
        i
    } else if i < 13 {
        i - 1
    } else if i < 18 {
        i - 2
    } else if i < 23 {
        i - 3
    } else {
        i - 4
    }
}

/// The canonical hyphenated text of a 128-bit identifier: 32 lower-case hex
/// digits, most significant first, grouped 8-4-4-4-12.
pub open spec fn hyphenated(id: u128) -> Seq<char> {
    Seq::new(
        36,
        |i: int|
            if is_hyphen_pos(i) {
                '-'
            } else {
                hex_digits()[nibble(id, digit_at(i)) as int]
            },
    )
}

/// A version-4 identifier of the RFC 4122 variant: version nibble 4 and
/// variant bits `10`.
pub open spec fn is_v4(id: u128) -> bool {
    (id >> 76u128) & 0xf == 4 && (id >> 62u128) & 3 == 2
}

/// Relies on `uuid::Uuid::new_v4`: a random identifier with the version and
/// variant bits set, read back as its big-endian 128-bit value.
#[verifier::external_body]
fn random_v4() -> (id: u128)
    ensures
        is_v4(id),
{
    uuid::Uuid::new_v4().as_u128()
}

/// Relies on uuid's `Display` for `Uuid` (the lower-case hyphenated form) of
/// the identifier with the given big-endian value.
#[verifier::external_body]
fn uuid_text(id: u128) -> (r: String)
    ensures
        r@ == hyphenated(id),
{
    uuid::Uuid::from_u128(id).to_string()
}

/// Draws a fresh random version-4 identifier.
pub fn new_identifier() -> (id: u128)
    ensures
        is_v4(id),
{
    random_v4()
}

/// Index of the last `.` in `s`, or -1 where there is none.
pub open spec fn last_dot(s: Seq<char>) -> int
    decreases s.len(),
{
    if s.len() == 0 {
        -1
    } else if s.last() == '.' {
        s.len() - 1
    } else {
        last_dot(s.drop_last())
    }
}

/// The extension of a file name that holds no `/`: what follows its last
/// `.`, where that `.` is not the first character; none for `..`.
pub open spec fn plain_extension(s: Seq<char>) -> Option<Seq<char>> {
    if last_dot(s) <= 0 || s == seq!['.', '.'] {
        None
    } else {
        Some(s.subrange(last_dot(s) + 1, s.len() as int))
    }
}

/// What `std::path::Path::extension` gives for a name read as a path.
pub uninterp spec fn path_extension(s: Seq<char>) -> Option<Seq<char>>;

/// The characters of an optional string.
pub open spec fn text_of(s: Option<String>) -> Option<Seq<char>> {
    match s {
        Some(t) => Some(t@),
        None => None,
    }
}

/// Relies on `std::path::Path::extension`: the part of the path's last
/// component after its final `.`, none where that component has no `.` or
/// only a leading one (or is `.` or `..`). A `&str` path converts back to
/// `str` without loss.
#[verifier::external_body]
fn extension_of(name: &str) -> (r: Option<String>)
    ensures
        text_of(r) == path_extension(name@),
        !name@.contains('.') ==> r is None,
        !name@.contains('/') ==> text_of(r) == plain_extension(name@),
        r matches Some(e) ==> !e@.contains('.') && !e@.contains('/'),
{
    std::path::Path::new(name).extension().and_then(|e| e.to_str()).map(|e| e.to_string())
}

/// The extension used where the original name gives none.
pub open spec fn unknown_ext() -> Seq<char> {
    seq!['u', 'n', 'k', 'n', 'o', 'w', 'n']
}

/// The extension kept from an original file name.
pub open spec fn extension_or_unknown(original: Seq<char>) -> Seq<char> {
    match path_extension(original) {
        Some(e) => e,
        None => unknown_ext(),
    }
}

/// The stored name for a file whose client-side name is `original`, under
/// identifier `id`.
pub open spec fn stored_name(original: Seq<char>, id: u128) -> Seq<char> {
    hyphenated(id) + seq!['.'] + extension_or_unknown(original)
}

/// No hex digit is a `/`.
proof fn lemma_hex_digits_not_slash(k: int)
    requires
        0 <= k < 16,
    ensures
        hex_digits()[k] != '/',
{
    let d = hex_digits();
    assert(d[0] == '0' && d[1] == '1' && d[2] == '2' && d[3] == '3');
    assert(d[4] == '4' && d[5] == '5' && d[6] == '6' && d[7] == '7');
    assert(d[8] == '8' && d[9] == '9' && d[10] == 'a' && d[11] == 'b');
    assert(d[12] == 'c' && d[13] == 'd' && d[14] == 'e' && d[15] == 'f');
    assert(k == 0 || k == 1 || k == 2 || k == 3 || k == 4 || k == 5 || k == 6 || k == 7 || k == 8 || k == 9 || k == 10 || k == 11 || k == 12 || k == 13 || k == 14 || k == 15);
}

/// The hyphenated form holds no `/`.
proof fn lemma_hyphenated_no_slash(id: u128)
    ensures
        !hyphenated(id).contains('/'),
{
    assert forall|i: int| 0 <= i < 36 implies hyphenated(id)[i] != '/' by {
        if !is_hyphen_pos(i) {
            let sh = (124 - 4 * digit_at(i)) as u128;
            let n = (id >> sh) & 0xf;
            assert(n < 16) by (bit_vector)
                requires
                    n == (id >> sh) & 0xf,
            ;
            lemma_hex_digits_not_slash(n as int);
        }
    }
}

/// Forms `<uuid>.<extension>` from the original file name and an identifier;
/// the extension is `unknown` where the original name has none.
pub fn stored_filename(original: &str, id: u128) -> (r: String)
    ensures
        r@ == stored_name(original@, id),
        !original@.contains('.') ==> r@ == hyphenated(id) + seq!['.'] + unknown_ext(),
        !original@.contains('/') ==> r@ == hyphenated(id) + seq!['.'] + match plain_extension(
            original@,
        ) {
            Some(e) => e,
            None => unknown_ext(),
        },
        !r@.contains('/'),
{
    let mut name = uuid_text(id);
    name.append(".");
    let ext = extension_of(original);
    match ext {
        Some(e) => name.append(e.as_str()),
        None => {
            name.append("unknown");
        },
    }
    proof {
        reveal_strlit(".");
        reveal_strlit("unknown");
        assert(seq!['.'] =~= "."@);
        assert(unknown_ext() =~= "unknown"@);
        lemma_hyphenated_no_slash(id);
        let h = hyphenated(id);
        let e = extension_or_unknown(original@);
        assert(!e.contains('/')) by {
            if e == unknown_ext() {
                assert(forall|i: int| 0 <= i < 7 ==> unknown_ext()[i] != '/');
            }
        }
        assert forall|i: int| 0 <= i < name@.len() implies name@[i] != '/' by {
            if i < 36 {
                assert(name@[i] == h[i]);
            } else if i > 36 {
                assert(name@[i] == e[i - 37]);
            }
        }
    }
    name
}

/// Distinct hex digit values show as distinct characters.
proof fn lemma_hex_digit_injective(x: u128, y: u128)
    requires
        x < 16,
        y < 16,
        hex_digits()[x as int] == hex_digits()[y as int],
    ensures
        x == y,
{
    let d = hex_digits();
    assert(d[0] == '0' && d[1] == '1' && d[2] == '2' && d[3] == '3');
    assert(d[4] == '4' && d[5] == '5' && d[6] == '6' && d[7] == '7');
    assert(d[8] == '8' && d[9] == '9' && d[10] == 'a' && d[11] == 'b');
    assert(d[12] == 'c' && d[13] == 'd' && d[14] == 'e' && d[15] == 'f');
}

/// Position in the hyphenated form of hex digit `j`.
pub open spec fn pos_of_digit(j: int) -> int {
    if j < 8 {
        j
    } else if j < 12 {
        j + 1
    } else if j < 16 {
        j + 2
    } else if j < 20 {
        j + 3
    } else {
        j + 4
    }
}

/// The hyphenated form determines the identifier: distinct identifiers give
/// distinct texts.
pub proof fn lemma_hyphenated_injective(a: u128, b: u128)
    requires
        hyphenated(a) == hyphenated(b),
    ensures
        a == b,
{
    assert forall|j: int| 0 <= j < 32 implies nibble(a, j) == nibble(b, j) by {
        let i = pos_of_digit(j);
        assert(!is_hyphen_pos(i) && digit_at(i) == j && 0 <= i < 36);
        assert(hyphenated(a)[i] == hyphenated(b)[i]);
        let sa = (124 - 4 * j) as u128;
        let na = (a >> sa) & 0xf;
        let nb = (b >> sa) & 0xf;
        assert(na < 16 && nb < 16) by (bit_vector)
            requires
                na == (a >> sa) & 0xf,
                nb == (b >> sa) & 0xf,
        ;
        assert(na == nibble(a, j) && nb == nibble(b, j));
        assert(hyphenated(a)[i] == hex_digits()[na as int]);
        assert(hyphenated(b)[i] == hex_digits()[nb as int]);
        lemma_hex_digit_injective(na, nb);
    }
    assert(nibble(a, 0) == nibble(b, 0));
    assert(nibble(a, 1) == nibble(b, 1));
    assert(nibble(a, 2) == nibble(b, 2));
    assert(nibble(a, 3) == nibble(b, 3));
    assert(nibble(a, 4) == nibble(b, 4));
    assert(nibble(a, 5) == nibble(b, 5));
    assert(nibble(a, 6) == nibble(b, 6));
    assert(nibble(a, 7) == nibble(b, 7));
    assert(nibble(a, 8) == nibble(b, 8));
    assert(nibble(a, 9) == nibble(b, 9));
    assert(nibble(a, 10) == nibble(b, 10));
    assert(nibble(a, 11) == nibble(b, 11));
    assert(nibble(a, 12) == nibble(b, 12));
    assert(nibble(a, 13) == nibble(b, 13));
    assert(nibble(a, 14) == nibble(b, 14));
    assert(nibble(a, 15) == nibble(b, 15));
    assert(nibble(a, 16) == nibble(b, 16));
    assert(nibble(a, 17) == nibble(b, 17));
    assert(nibble(a, 18) == nibble(b, 18));
    assert(nibble(a, 19) == nibble(b, 19));
    assert(nibble(a, 20) == nibble(b, 20));
    assert(nibble(a, 21) == nibble(b, 21));
    assert(nibble(a, 22) == nibble(b, 22));
    assert(nibble(a, 23) == nibble(b, 23));
    assert(nibble(a, 24) == nibble(b, 24));
    assert(nibble(a, 25) == nibble(b, 25));
    assert(nibble(a, 26) == nibble(b, 26));
    assert(nibble(a, 27) == nibble(b, 27));
    assert(nibble(a, 28) == nibble(b, 28));
    assert(nibble(a, 29) == nibble(b, 29));
    assert(nibble(a, 30) == nibble(b, 30));
    assert(nibble(a, 31) == nibble(b, 31));
    assert(a == b) by (bit_vector)
        requires
                (a >> 124u128) & 0xf == (b >> 124u128) & 0xf,
                (a >> 120u128) & 0xf == (b >> 120u128) & 0xf,
                (a >> 116u128) & 0xf == (b >> 116u128) & 0xf,
                (a >> 112u128) & 0xf == (b >> 112u128) & 0xf,
                (a >> 108u128) & 0xf == (b >> 108u128) & 0xf,
                (a >> 104u128) & 0xf == (b >> 104u128) & 0xf,
                (a >> 100u128) & 0xf == (b >> 100u128) & 0xf,
                (a >> 96u128) & 0xf == (b >> 96u128) & 0xf,
                (a >> 92u128) & 0xf == (b >> 92u128) & 0xf,
                (a >> 88u128) & 0xf == (b >> 88u128) & 0xf,
                (a >> 84u128) & 0xf == (b >> 84u128) & 0xf,
                (a >> 80u128) & 0xf == (b >> 80u128) & 0xf,
                (a >> 76u128) & 0xf == (b >> 76u128) & 0xf,
                (a >> 72u128) & 0xf == (b >> 72u128) & 0xf,
                (a >> 68u128) & 0xf == (b >> 68u128) & 0xf,
                (a >> 64u128) & 0xf == (b >> 64u128) & 0xf,
                (a >> 60u128) & 0xf == (b >> 60u128) & 0xf,
                (a >> 56u128) & 0xf == (b >> 56u128) & 0xf,
                (a >> 52u128) & 0xf == (b >> 52u128) & 0xf,
                (a >> 48u128) & 0xf == (b >> 48u128) & 0xf,
                (a >> 44u128) & 0xf == (b >> 44u128) & 0xf,
                (a >> 40u128) & 0xf == (b >> 40u128) & 0xf,
                (a >> 36u128) & 0xf == (b >> 36u128) & 0xf,
                (a >> 32u128) & 0xf == (b >> 32u128) & 0xf,
                (a >> 28u128) & 0xf == (b >> 28u128) & 0xf,
                (a >> 24u128) & 0xf == (b >> 24u128) & 0xf,
                (a >> 20u128) & 0xf == (b >> 20u128) & 0xf,
                (a >> 16u128) & 0xf == (b >> 16u128) & 0xf,
                (a >> 12u128) & 0xf == (b >> 12u128) & 0xf,
                (a >> 8u128) & 0xf == (b >> 8u128) & 0xf,
                (a >> 4u128) & 0xf == (b >> 4u128) & 0xf,
                (a >> 0u128) & 0xf == (b >> 0u128) & 0xf,
    ;
}

/// Stored names drawn under distinct identifiers are distinct, whatever the
/// original names.
pub proof fn lemma_distinct_ids_distinct_names(
    original_a: Seq<char>,
    original_b: Seq<char>,
    id_a: u128,
    id_b: u128,
)
    requires
        id_a != id_b,
    ensures
        stored_name(original_a, id_a) != stored_name(original_b, id_b),
{
    let na = stored_name(original_a, id_a);
    let nb = stored_name(original_b, id_b);
    if na == nb {
        assert(na.subrange(0, 36) =~= hyphenated(id_a));
        assert(nb.subrange(0, 36) =~= hyphenated(id_b));
        lemma_hyphenated_injective(id_a, id_b);
    }
}

} // verus!
