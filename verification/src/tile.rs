//! Tile codec.
//!
//! A tile is a `u8` in `[0, 34)`: `1m`-`9m` are `0`-`8`, `1p`-`9p` are
//! `9`-`17`, `1s`-`9s` are `18`-`26`, and the seven honors (`1z`-`7z`,
//! four winds then three dragons) are `27`-`33`.

use vstd::prelude::*;
use vstd::string::StringExecFns;
use vstd::string::StringSliceAdditionalSpecFns;

use crate::err::MjError;

verus! {

pub const PAI_COUNT: usize = 34;
pub const PAI_COUNT_U8: u8 = 34;
pub const HAND_BEFORE_DRAW: usize = 13;
pub const HAND_AFTER_DRAW: usize = 14;
pub const OFFSET_M: u8 = 0;
pub const OFFSET_P: u8 = 9;
pub const OFFSET_S: u8 = 18;
pub const OFFSET_Z: u8 = 27;
pub const KIND_M: u8 = 0;
pub const KIND_P: u8 = 1;
pub const KIND_S: u8 = 2;
pub const KIND_Z: u8 = 3;

/// A (kind, number) pair names a real tile: three numeric suits of
/// numbers 1-9 and the honor suit of numbers 1-7.
pub open spec fn spec_valid_kind_num(kind: u8, num: u8) -> bool {
    kind <= 3 && 1 <= num && num <= 9 && (kind == 3 ==> num <= 7)
}

/// A tile code is valid when it is below 34.
pub open spec fn spec_valid_pai(code: u8) -> bool {
    code < 34
}

/// The tile code of a (kind, number) pair.
pub open spec fn spec_encode(kind: u8, num: u8) -> u8 {
    (kind * 9 + (num - 1)) as u8
}

/// The suit of a tile code.
pub open spec fn spec_kind(code: u8) -> u8 {
    code / 9
}

/// The number (1-based rank) of a tile code.
pub open spec fn spec_num(code: u8) -> u8 {
    (code % 9 + 1) as u8
}

/// Honor tile: wind or dragon.
pub open spec fn spec_is_ji(code: u8) -> bool {
    code >= 27
}

/// Dragon tile (white, green, red).
pub open spec fn spec_is_sangen(code: u8) -> bool {
    31 <= code && code <= 33
}

/// Terminal or honor.
pub open spec fn spec_is_yao(code: u8) -> bool {
    code >= 27 || code % 9 == 0 || code % 9 == 8
}

/// Terminal of a numeric suit (1 or 9 of m/p/s).
pub open spec fn spec_is_jun(code: u8) -> bool {
    code < 27 && (code % 9 == 0 || code % 9 == 8)
}

/// A tile that the all-green limit hand accepts: 2,3,4,6,8 of souzu or
/// the green dragon.
pub open spec fn spec_is_green(code: u8) -> bool {
    code == 19 || code == 20 || code == 21 || code == 23 || code == 25 || code == 32
}

/// Round-trip law: decoding an encoded tile returns the original
/// (kind, number) pair, for every valid pair.
pub proof fn lemma_encode_decode(kind: u8, num: u8)
    requires
        spec_valid_kind_num(kind, num),
    ensures
        spec_valid_pai(spec_encode(kind, num)),
        spec_kind(spec_encode(kind, num)) == kind,
        spec_num(spec_encode(kind, num)) == num,
{
    let code = spec_encode(kind, num);
    assert(code == kind * 9 + (num - 1)) by {
        assert(kind * 9 + (num - 1) <= 3 * 9 + 8) by (nonlinear_arith)
            requires
                kind <= 3,
                num <= 9,
        ;
    }
    assert(code / 9 == kind && code % 9 == num - 1) by (nonlinear_arith)
        requires
            code == kind * 9 + (num - 1),
            kind <= 3,
            1 <= num <= 9,
    ;
}

fn validate(kind: u8, num: u8) -> (r: Result<(), MjError>)
    ensures
        r is Ok <==> spec_valid_kind_num(kind, num),
{
    if kind > 3 {
        return Err(MjError::InvalidTile);
    }
    if !(1 <= num && num <= 9) {
        return Err(MjError::InvalidTile);
    }
    if kind == 3 && num > 7 {
        return Err(MjError::InvalidTile);
    }
    Ok(())
}

/// Splits a tile code into its (kind, number) pair; rejects codes of 34
/// and above.
pub fn decode(code: u8) -> (r: Result<(u8, u8), MjError>)
    ensures
        r is Ok <==> spec_valid_pai(code),
        r matches Ok(kn) ==> kn.0 == spec_kind(code) && kn.1 == spec_num(code)
            && spec_valid_kind_num(kn.0, kn.1),
{
    let kind = code / 9;
    let num = code % 9 + 1;

    validate(kind, num)?;

    Ok((kind, num))
}

/// Builds the tile code of a (kind, number) pair; rejects pairs outside
/// the valid ranges.
pub fn encode(kind: u8, num: u8) -> (r: Result<u8, MjError>)
    ensures
        r is Ok <==> spec_valid_kind_num(kind, num),
        r matches Ok(code) ==> code == spec_encode(kind, num) && spec_valid_pai(code)
            && spec_kind(code) == kind && spec_num(code) == num,
{
    validate(kind, num)?;

    proof {
        lemma_encode_decode(kind, num);
    }
    Ok(kind * 9 + (num - 1))
}

pub fn is_ji(code: u8) -> (r: Result<bool, MjError>)
    ensures
        r is Ok <==> spec_valid_pai(code),
        r matches Ok(b) ==> b == spec_is_ji(code),
{
    let (kind, _num) = decode(code)?;

    Ok(kind == KIND_Z)
}

pub fn is_num(code: u8) -> (r: Result<bool, MjError>)
    ensures
        r is Ok <==> spec_valid_pai(code),
        r matches Ok(b) ==> b == !spec_is_ji(code),
{
    Ok(!is_ji(code)?)
}

pub fn is_sangen(code: u8) -> (r: Result<bool, MjError>)
    ensures
        r is Ok <==> spec_valid_pai(code),
        r matches Ok(b) ==> b == spec_is_sangen(code),
{
    let (kind, num) = decode(code)?;

    Ok(kind == KIND_Z && 5 <= num && num <= 7)
}

pub fn is_yao(code: u8) -> (r: Result<bool, MjError>)
    ensures
        r is Ok <==> spec_valid_pai(code),
        r matches Ok(b) ==> b == spec_is_yao(code),
{
    let (kind, num) = decode(code)?;

    Ok(kind == KIND_Z || num == 1 || num == 9)
}

pub fn is_jun(code: u8) -> (r: Result<bool, MjError>)
    ensures
        r is Ok <==> spec_valid_pai(code),
        r matches Ok(b) ==> b == spec_is_jun(code),
{
    let (kind, num) = decode(code)?;

    Ok(kind < 3 && (num == 1 || num == 9))
}

pub fn is_tanyao(code: u8) -> (r: Result<bool, MjError>)
    ensures
        r is Ok <==> spec_valid_pai(code),
        r matches Ok(b) ==> b == !spec_is_yao(code),
{
    Ok(!is_yao(code)?)
}

pub fn is_green(code: u8) -> (r: Result<bool, MjError>)
    ensures
        r is Ok <==> spec_valid_pai(code),
        r matches Ok(b) ==> b == spec_is_green(code),
{
    let (kind, num) = decode(code)?;

    let b1 = (kind == KIND_S) && (num == 2 || num == 3 || num == 4 || num == 6 || num == 8);
    let b2 = (kind == KIND_Z) && (num == 6);

    Ok(b1 || b2)
}

/// The digit character of a tile number.
pub open spec fn spec_num_char(num: u8) -> char {
    if num == 1 {
        '1'
    } else if num == 2 {
        '2'
    } else if num == 3 {
        '3'
    } else if num == 4 {
        '4'
    } else if num == 5 {
        '5'
    } else if num == 6 {
        '6'
    } else if num == 7 {
        '7'
    } else if num == 8 {
        '8'
    } else {
        '9'
    }
}

/// The suit letter of a tile kind.
pub open spec fn spec_kind_char(kind: u8) -> char {
    if kind == 0 {
        'm'
    } else if kind == 1 {
        'p'
    } else if kind == 2 {
        's'
    } else {
        'z'
    }
}

/// The two-character notation of a valid tile code: its number digit
/// followed by its suit letter.
pub open spec fn spec_pai_notation(code: u8) -> Seq<char> {
    seq![spec_num_char(spec_num(code)), spec_kind_char(spec_kind(code))]
}

fn num_str(num: u8) -> (r: &'static str)
    requires
        1 <= num <= 9,
    ensures
        r@ =~= seq![spec_num_char(num)],
{
    proof {
        reveal_strlit("1");
        reveal_strlit("2");
        reveal_strlit("3");
        reveal_strlit("4");
        reveal_strlit("5");
        reveal_strlit("6");
        reveal_strlit("7");
        reveal_strlit("8");
        reveal_strlit("9");
    }
    match num {
        1 => "1",
        2 => "2",
        3 => "3",
        4 => "4",
        5 => "5",
        6 => "6",
        7 => "7",
        8 => "8",
        _ => "9",
    }
}

fn kind_str(kind: u8) -> (r: &'static str)
    requires
        kind <= 3,
    ensures
        r@ =~= seq![spec_kind_char(kind)],
{
    proof {
        reveal_strlit("m");
        reveal_strlit("p");
        reveal_strlit("s");
        reveal_strlit("z");
    }
    match kind {
        0 => "m",
        1 => "p",
        2 => "s",
        _ => "z",
    }
}

/// Renders a tile code as its two-character notation, such as `1m` or
/// `7z`; rejects invalid codes.
pub fn to_human_readable_string(code: u8) -> (r: Result<String, MjError>)
    ensures
        r is Ok <==> spec_valid_pai(code),
        r matches Ok(s) ==> s@ == spec_pai_notation(code),
{
    let (kind, num) = decode(code)?;

    let s = String::from_str(num_str(num));
    let s = s.concat(kind_str(kind));
    proof {
        assert(s@ =~= spec_pai_notation(code));
    }
    Ok(s)
}

/// The tile kind named by a suit letter.
pub open spec fn spec_char_kind(c: char) -> Option<u8> {
    if c == 'm' {
        Some(0u8)
    } else if c == 'p' {
        Some(1u8)
    } else if c == 's' {
        Some(2u8)
    } else if c == 'z' {
        Some(3u8)
    } else {
        None
    }
}

pub(crate) fn char_to_kind(c: char) -> (r: Result<u8, MjError>)
    ensures
        r is Ok <==> spec_char_kind(c) is Some,
        r matches Ok(k) ==> spec_char_kind(c) == Some(k),
{
    match c {
        'm' => Ok(KIND_M),
        'p' => Ok(KIND_P),
        's' => Ok(KIND_S),
        'z' => Ok(KIND_Z),
        _ => Err(MjError::ParseError),
    }
}


/// An ASCII whitespace byte as the notation skips it.
pub open spec fn spec_space(b: u8) -> bool {
    b == 32 || b == 9 || b == 10 || b == 13 || b == 12
}

/// An ASCII digit byte naming a tile number.
pub open spec fn spec_digit(b: u8) -> bool {
    49 <= b && b <= 57
}

/// Every pending number names a tile of the given suit.
pub open spec fn spec_nums_ok(nums: Seq<u8>, kind: u8) -> bool {
    forall|j: int| 0 <= j < nums.len() ==> spec_valid_kind_num(kind, #[trigger] nums[j])
}

/// The tile codes of a digit run closed by a suit letter, in written
/// order.
pub open spec fn spec_encoded(nums: Seq<u8>, kind: u8) -> Seq<u8> {
    Seq::new(nums.len(), |j: int| spec_encode(kind, nums[j]))
}

/// The plain tile-list grammar, one byte at a time from position `i`
/// with the tiles and pending digits read so far: whitespace skips,
/// digits gather, a suit letter turns the gathered digits into tiles,
/// anything else fails; at the end a dangling digit run or an empty
/// list fails.
pub open spec fn spec_scan_tiles(bytes: Seq<u8>, i: int, pais: Seq<u8>, nums: Seq<u8>) -> Option<
    Seq<u8>,
>
    decreases bytes.len() - i,
{
    if i < 0 || i >= bytes.len() {
        if nums.len() == 0 && pais.len() > 0 {
            Some(pais)
        } else {
            None
        }
    } else {
        let b = bytes[i];
        if spec_space(b) {
            spec_scan_tiles(bytes, i + 1, pais, nums)
        } else if spec_digit(b) {
            spec_scan_tiles(bytes, i + 1, pais, nums.push((b - 48) as u8))
        } else {
            match spec_char_kind(b as char) {
                Some(kind) => if spec_nums_ok(nums, kind) {
                    spec_scan_tiles(bytes, i + 1, pais + spec_encoded(nums, kind), seq![])
                } else {
                    None
                },
                None => None,
            }
        }
    }
}

/// The tile list a notation string denotes, when it is well formed.
pub open spec fn spec_tile_list(bytes: Seq<u8>) -> Option<Seq<u8>> {
    spec_scan_tiles(bytes, 0, seq![], seq![])
}

/// Parses a plain tile list: digit runs each closed by a suit letter,
/// with whitespace ignored.  No meld markers and no count check; the
/// parse succeeds exactly on ASCII strings the grammar accepts, and
/// the tiles come back in written order.
#[verifier::loop_isolation(false)]
pub fn from_human_readable_string(src: &str) -> (r: Result<Vec<u8>, MjError>)
    ensures
        r is Ok <==> vstd::string::is_ascii(src) && spec_tile_list(src.spec_bytes()) is Some,
        r matches Ok(list) ==> spec_tile_list(src.spec_bytes()) == Some(list@) && list@.len() > 0
            && forall|j: int| 0 <= j < list@.len() ==> #[trigger] list@[j] < 34,
        !vstd::string::is_ascii(src) ==> r is Err,
{
    if !src.is_ascii() {
        return Err(MjError::ParseError);
    }

    let bytes = src.as_bytes();
    let ghost bs = bytes@;
    let mut result: Vec<u8> = Vec::new();
    let mut tmp: Vec<u8> = Vec::new();

    let mut i: usize = 0;
    while i < bytes.len()
        invariant
            i <= bs.len(),
            bytes@ == bs,
            bs == src.spec_bytes(),
            spec_scan_tiles(bs, 0, seq![], seq![]) == spec_scan_tiles(bs, i as int, result@, tmp@),
            forall|j: int| 0 <= j < result@.len() ==> #[trigger] result@[j] < 34,
            forall|j: int| 0 <= j < tmp@.len() ==> 1 <= #[trigger] tmp@[j] && tmp@[j] <= 9,
        decreases bs.len() - i,
    {
        let b = bytes[i];
        if b == 32 || b == 9 || b == 10 || b == 13 || b == 12 {
            // whitespace
        } else if 49 <= b && b <= 57 {
            tmp.push(b - 48);
        } else {
            let kind = match char_to_kind(b as char) {
                Ok(k) => k,
                Err(e) => {
                    proof {
                        assert(spec_scan_tiles(bs, i as int, result@, tmp@) is None);
                    }
                    return Err(e);
                }
            };
            let ghost pais0 = result@;
            let ghost nums0 = tmp@;
            let mut k: usize = 0;
            while k < tmp.len()
                invariant
                    k <= tmp@.len(),
                    kind <= 3,
                    tmp@ == nums0,
                    forall|j: int| 0 <= j < k ==> spec_valid_kind_num(kind, #[trigger] nums0[j]),
                    result@ == pais0 + spec_encoded(nums0.take(k as int), kind),
                    forall|j: int| 0 <= j < tmp@.len() ==> 1 <= #[trigger] tmp@[j] && tmp@[j] <= 9,
                    forall|j: int| 0 <= j < pais0.len() ==> #[trigger] pais0[j] < 34,
                decreases tmp@.len() - k,
            {
                let num = tmp[k];
                let pai = match encode(kind, num) {
                    Ok(p) => p,
                    Err(_) => {
                        proof {
                            assert(!spec_nums_ok(nums0, kind));
                            assert(spec_scan_tiles(bs, i as int, pais0, nums0) is None);
                        }
                        return Err(MjError::ParseError);
                    }
                };
                result.push(pai);
                proof {
                    assert(result@ =~= pais0 + spec_encoded(nums0.take(k + 1), kind));
                }
                k += 1;
            }
            tmp.clear();
            proof {
                assert(nums0.take(nums0.len() as int) =~= nums0);
                assert(spec_nums_ok(nums0, kind));
                assert(result@ == pais0 + spec_encoded(nums0, kind));
                assert(forall|j: int| 0 <= j < result@.len() ==> #[trigger] result@[j] < 34) by {
                    assert(forall|j: int|
                        0 <= j < nums0.len() ==> #[trigger] spec_encoded(nums0, kind)[j] < 34);
                }
            }
        }
        i += 1;
    }
    if tmp.len() != 0 {
        return Err(MjError::ParseError);
    }
    if result.len() == 0 {
        return Err(MjError::ParseError);
    }

    Ok(result)
}

} // verus!
