//! The gadget's serial number and its share of bus power.
//!
//! The serial is derived from the machine id, so that a car's cached pairing
//! survives a reinstall of the software.

use vstd::prelude::*;
use vstd::string::*;
use vstd::utf8::*;

use crate::board;
use crate::board::GadgetBoard;
use crate::text;

verus! {

// ---------------------------------------------------------------------------
// Outside functions
// ---------------------------------------------------------------------------

/// The SHA-256 digest of a byte sequence.
pub uninterp spec fn sha256_digest(data: Seq<u8>) -> Seq<u8>;

/// `ring::digest::digest` with `ring::digest::SHA256`: the SHA-256 digest of the
/// data, 32 bytes that depend on nothing else. It panics where the length of the
/// data in bits does not fit in 64 bits.
#[verifier::external_body]
fn sha256(data: &[u8]) -> (res: Vec<u8>)
    requires
        data@.len() * 8 <= u64::MAX,
    ensures
        res@ == sha256_digest(data@),
        res@.len() == 32,
{
    ring::digest::digest(&ring::digest::SHA256, data).as_ref().to_vec()
}

/// The lower-case hexadecimal digit of a number below sixteen.
pub open spec fn hex_digit(d: int) -> char {
    if d < 10 {
        ('0' as u32 + d) as char
    } else {
        ('a' as u32 + (d - 10)) as char
    }
}

/// The lower-case hexadecimal form of a byte sequence: two digits for each byte,
/// the high half first.
pub open spec fn hex_text(data: Seq<u8>) -> Seq<char> {
    Seq::new(
        2 * data.len(),
        |i: int|
            hex_digit(
                if i % 2 == 0 {
                    data[i / 2] as int / 16
                } else {
                    data[i / 2] as int % 16
                },
            ),
    )
}

/// `hex::encode`: the lower-case hexadecimal form of the data.
#[verifier::external_body]
fn hex_encode(data: &[u8]) -> (res: String)
    ensures
        res@ == hex_text(data@),
{
    hex::encode(data)
}

// ---------------------------------------------------------------------------
// Serial number
// ---------------------------------------------------------------------------

/// The serial number that a digest gives.
pub open spec fn serial_text(digest: Seq<u8>) -> Seq<char> {
    "SentryUSB-"@ + hex_text(digest)
}

/// The bytes of a machine-id file that the serial depends on.
pub open spec fn machine_key(raw: Seq<char>) -> Seq<u8> {
    encode_utf8(text::trim(raw))
}

/// The serial number for the contents of a machine-id file.
pub open spec fn machine_serial(raw: Seq<char>) -> Seq<char> {
    if text::trim(raw).len() == 0 {
        "SentryUSB-unknown"@
    } else {
        serial_text(sha256_digest(machine_key(raw)))
    }
}

/// The serial number that a digest gives.
pub fn serial_of_digest(digest: &[u8]) -> (res: String)
    ensures
        res@ == serial_text(digest@),
{
    text::cat("SentryUSB-", &hex_encode(digest))
}

/// The machine id is short enough to be digested.
pub open spec fn digestible(machine_id: Option<Seq<char>>) -> bool {
    machine_id matches Some(raw) ==> machine_key(raw).len() * 8 <= u64::MAX
}

/// Whether the machine id is short enough to be digested.
pub fn is_digestible(machine_id: Option<&str>) -> (res: bool)
    ensures
        res == digestible(board::opt_str_view(machine_id)),
{
    match machine_id {
        Some(raw) => {
            let len: usize = text::trimmed(raw).as_str().as_bytes().len();
            len as u64 <= u64::MAX / 8
        },
        None => true,
    }
}

/// The serial number for a machine: `SentryUSB-` and the hexadecimal SHA-256
/// digest of the trimmed machine id, or `SentryUSB-unknown` where the file is
/// unreadable or blank.
pub fn get_machine_serial(machine_id: Option<&str>) -> (res: String)
    requires
        digestible(board::opt_str_view(machine_id)),
    ensures
        res@ == match machine_id {
            Some(raw) => machine_serial(raw@),
            None => machine_serial(Seq::empty()),
        },
{
    match machine_id {
        Some(raw) => {
            let mid = text::trimmed(raw);
            if mid.as_str().is_empty() {
                return "SentryUSB-unknown".to_owned();
            }
            let h = sha256(mid.as_str().as_bytes());
            serial_of_digest(h.as_slice())
        },
        None => {
            assert(text::trim(Seq::empty()).len() == 0);
            "SentryUSB-unknown".to_owned()
        },
    }
}

/// White space around the machine id does not change the serial number.
pub proof fn law_serial_ignores_outer_space(before: Seq<char>, id: Seq<char>, after: Seq<char>)
    requires
        text::all_space(before),
        text::all_space(after),
    ensures
        machine_serial(before + id + after) == machine_serial(id),
{
    text::lemma_trim_padded(before, id, after);
}

/// Two machine ids whose digests differ give different serial numbers.
pub proof fn law_serials_tell_digests_apart(a: Seq<u8>, b: Seq<u8>)
    ensures
        serial_text(a) == serial_text(b) ==> a == b,
{
    if serial_text(a) == serial_text(b) {
        let p = "SentryUSB-"@;
        assert(hex_text(a) =~= serial_text(a).skip(p.len() as int));
        assert(hex_text(b) =~= serial_text(b).skip(p.len() as int));
        assert(hex_text(a) == hex_text(b));
        assert(a.len() == b.len());
        assert forall|i: int| 0 <= i < a.len() implies a[i] == b[i] by {
            assert((2 * i) % 2 == 0 && (2 * i) / 2 == i);
            assert((2 * i + 1) % 2 == 1 && (2 * i + 1) / 2 == i);
            assert(hex_text(a)[2 * i] == hex_digit(a[i] as int / 16));
            assert(hex_text(b)[2 * i] == hex_digit(b[i] as int / 16));
            assert(hex_text(a)[2 * i + 1] == hex_digit(a[i] as int % 16));
            assert(hex_text(b)[2 * i + 1] == hex_digit(b[i] as int % 16));
        }
        assert(a =~= b);
    }
}

// ---------------------------------------------------------------------------
// Bus power
// ---------------------------------------------------------------------------

/// The model text of a file that may be unreadable.
pub open spec fn text_or_empty(raw: Option<&str>) -> Seq<char> {
    match raw {
        Some(s) => s@,
        None => Seq::empty(),
    }
}

/// `MaxPower` in milliamps on the hardcoded path: the ladder for a Raspberry Pi,
/// and a flat 100 for any other board.
pub open spec fn model_power(model: Seq<char>) -> u32 {
    if board::names_raspberry_pi(model) {
        board::power_ladder(text::lower(model))
    } else {
        100
    }
}

/// `MaxPower` in milliamps for the contents of the device-tree model file.
pub fn get_max_power(model: Option<&str>) -> (res: u32)
    ensures
        res == model_power(text_or_empty(model)),
{
    match model {
        Some(s) => if board::is_pi_model(s) {
            board::pi_max_power_ma(s)
        } else {
            100
        },
        None => {
            assert(!board::names_raspberry_pi(Seq::empty())) by {
                reveal_strlit("raspberry pi");
                assert("raspberry pi"@.len() == 12);
            }
            100
        },
    }
}

/// The current does not depend on the path: on every recognised board it is
/// what the hardcoded path asks for when it reads the same model.
pub proof fn law_both_paths_ask_for_the_same_current(
    board: board::Board,
    model: Seq<char>,
    family: board::UdcFamily,
)
    requires
        board::maps_to(model, family, board),
    ensures
        board.knobs().max_power_ma == model_power(model),
{
}

/// On a Raspberry Pi model both ladders give the same value.
pub proof fn law_ladders_agree(model: Seq<char>)
    requires
        board::names_raspberry_pi(model),
    ensures
        model_power(model) == board::power_ladder(text::lower(model)),
{
}

// ---------------------------------------------------------------------------
// What the serial number and the current are
// ---------------------------------------------------------------------------

/// The number that a lower-case hexadecimal digit stands for.
pub open spec fn hex_value(c: char) -> int {
    if '0' <= c && c <= '9' {
        c as int - '0' as int
    } else if 'a' <= c && c <= 'f' {
        c as int - 'a' as int + 10
    } else {
        -1
    }
}

/// The serial number of a machine spells the digest of its id, byte by byte:
/// after `SentryUSB-`, each two digits are a byte, the high half first. A blank
/// id has no digest, and its serial number says so.
pub proof fn law_serial_spells_the_digest(raw: Seq<char>, i: int)
    ensures
        (forall|k: int| 0 <= k < raw.len() ==> text::is_space(#[trigger] raw[k])) ==> machine_serial(
            raw,
        ) == "SentryUSB-unknown"@,
        (exists|k: int| 0 <= k < raw.len() && !text::is_space(#[trigger] raw[k])) ==> {
            let digest = sha256_digest(encode_utf8(text::trim(raw)));
            let serial = machine_serial(raw);
            &&& serial.len() == 10 + 2 * digest.len()
            &&& serial.take(10) == "SentryUSB-"@
            &&& 0 <= i < digest.len() ==> hex_value(serial[10 + 2 * i]) * 16 + hex_value(
                serial[11 + 2 * i],
            ) == digest[i]
            &&& 0 <= i < digest.len() ==> hex_value(serial[10 + 2 * i]) >= 0 && hex_value(
                serial[11 + 2 * i],
            ) >= 0
        },
{
    text::law_trim_empties_blank_text(raw);
    reveal_strlit("SentryUSB-");
    if exists|k: int| 0 <= k < raw.len() && !text::is_space(#[trigger] raw[k]) {
        let digest = sha256_digest(encode_utf8(text::trim(raw)));
        let serial = machine_serial(raw);
        assert("SentryUSB-"@.len() == 10);
        assert(serial.take(10) =~= "SentryUSB-"@);
        if 0 <= i < digest.len() {
            assert((2 * i) % 2 == 0 && (2 * i) / 2 == i);
            assert((2 * i + 1) % 2 == 1 && (2 * i + 1) / 2 == i);
            assert(serial[10 + 2 * i] == hex_text(digest)[2 * i]);
            assert(serial[11 + 2 * i] == hex_text(digest)[2 * i + 1]);
            let (high, low) = (digest[i] as int / 16, digest[i] as int % 16);
            assert(0 <= high < 16 && 0 <= low < 16);
            assert(hex_value(hex_digit(high)) == high);
            assert(hex_value(hex_digit(low)) == low);
        }
    }
}

/// The current that a model is granted: 600 mA where a Raspberry Pi model says
/// `pi 5`, else 500 for `pi 4`, else 300 for `pi 3`, else 200 for `pi 2` or
/// `zero 2`, and 100 everywhere else. The case of the letters does not matter.
pub proof fn law_current_by_model(model: Seq<char>)
    ensures
        ({
            let m = text::lower(model);
            let pi = text::begins_with(m, "raspberry pi"@);
            let says = |word: Seq<char>| text::contains_text(m, word);
            &&& !pi ==> model_power(model) == 100
            &&& pi && says("pi 5"@) ==> model_power(model) == 600
            &&& pi && !says("pi 5"@) && says("pi 4"@) ==> model_power(model) == 500
            &&& pi && !says("pi 5"@) && !says("pi 4"@) && says("pi 3"@) ==> model_power(model)
                == 300
            &&& pi && !says("pi 5"@) && !says("pi 4"@) && !says("pi 3"@) && (says("pi 2"@) || says(
                "zero 2"@,
            )) ==> model_power(model) == 200
            &&& pi && !says("pi 5"@) && !says("pi 4"@) && !says("pi 3"@) && !says("pi 2"@) && !says(
                "zero 2"@,
            ) ==> model_power(model) == 100
        }),
{
}

/// A machine id can be digested unless its trimmed text has more bits than a
/// 64-bit number can count.
pub proof fn law_ids_of_any_sane_length_are_digested(raw: Seq<char>)
    ensures
        digestible(Some(raw)) <==> encode_utf8(text::trim(raw)).len() * 8
            <= 0xffff_ffff_ffff_ffff,
        digestible(None),
{
}

/// The text of a file that cannot be read is empty; that of any other is its
/// contents.
pub proof fn law_unreadable_files_are_empty(raw: Option<&str>)
    ensures
        raw matches Some(s) ==> text_or_empty(raw) == s@,
        raw is None ==> text_or_empty(raw).len() == 0,
{
}

} // verus!
