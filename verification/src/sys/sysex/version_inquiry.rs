//! The firmware version inquiry (`F0 00 20 29 02 7F 00 ...`).

use vstd::prelude::*;
use vstd::string::StringSliceAdditionalSpecFns;
use crate::app::AppId;
use crate::sys::midi::MidiPort;
use super::output::{replies_view, SysExHandler, SysExOutput};

verus! {

/// Major version of this firmware.
pub const VERSION_MAJOR: &'static str = "0";
/// Minor version of this firmware.
pub const VERSION_MINOR: &'static str = "1";
/// Patch version of this firmware.
pub const VERSION_PATCH: &'static str = "0";

/// Answers the firmware version inquiry.
pub struct Handler;

/// The number the decimal digits of `s` spell, other bytes skipped.
pub open spec fn decimal_value(s: Seq<u8>) -> nat
    decreases s.len(),
{
    if s.len() == 0 {
        0
    } else {
        let b = s.last();
        if 48 <= b <= 57 {
            decimal_value(s.drop_last()) * 10 + (b - 48) as nat
        } else {
            decimal_value(s.drop_last())
        }
    }
}

proof fn lemma_decimal_prefix(s: Seq<u8>, i: int)
    requires
        0 <= i <= s.len(),
    ensures
        decimal_value(s.take(i)) <= decimal_value(s),
    decreases s.len() - i,
{
    if i < s.len() {
        lemma_decimal_prefix(s, i + 1);
        assert(s.take(i + 1).drop_last() =~= s.take(i));
    } else {
        assert(s.take(i) =~= s);
    }
}

/// The number the decimal digits of `s` spell; other characters are skipped.
pub fn parse_u8(s: &str) -> (r: u8)
    requires
        decimal_value(s.spec_bytes()) <= 255,
    ensures
        r == decimal_value(s.spec_bytes()),
{
    let bytes = s.as_bytes();
    let mut val: u8 = 0;
    let mut i: usize = 0;
    while i < bytes.len()
        invariant
            bytes@ == s.spec_bytes(),
            decimal_value(bytes@) <= 255,
            i <= bytes.len(),
            val == decimal_value(bytes@.take(i as int)),
        decreases bytes.len() - i,
    {
        let b = bytes[i];
        proof {
            lemma_decimal_prefix(bytes@, i + 1);
            assert(bytes@.take(i + 1).drop_last() =~= bytes@.take(i as int));
        }
        if b >= 48 && b <= 57 {
            val = val * 10 + (b - 48);
        }
        i += 1;
    }
    assert(bytes@.take(i as int) =~= bytes@);
    val
}

/// `data` starts with the version inquiry `F0 00 20 29 02 7F 00`.
pub open spec fn is_version_inquiry(data: Seq<u8>) -> bool {
    data.len() >= 7 && data.take(7) == seq![0xf0u8, 0x00, 0x20, 0x29, 0x02, 0x7f, 0x00]
}

/// The reply to a version inquiry: the device id and the three version numbers.
pub open spec fn version_reply(device_id: u8) -> Seq<u8> {
    seq![
        0xf0u8,
        0x00,
        0x20,
        0x29,
        0x02,
        0x7f,
        0x01,
        device_id,
        (decimal_value(VERSION_MAJOR.spec_bytes()) as u8) & 0x7f,
        (decimal_value(VERSION_MINOR.spec_bytes()) as u8) & 0x7f,
        (decimal_value(VERSION_PATCH.spec_bytes()) as u8) & 0x7f,
        0xf7,
    ]
}

fn starts_with_inquiry(data: &[u8]) -> (r: bool)
    ensures
        r == is_version_inquiry(data@),
{
    if data.len() < 7 {
        return false;
    }
    let r = data[0] == 0xf0 && data[1] == 0x00 && data[2] == 0x20 && data[3] == 0x29 && data[4]
        == 0x02 && data[5] == 0x7f && data[6] == 0x00;
    proof {
        let t = data@.take(7);
        if r {
            assert(t =~= seq![0xf0u8, 0x00, 0x20, 0x29, 0x02, 0x7f, 0x00]);
        } else if t == seq![0xf0u8, 0x00, 0x20, 0x29, 0x02, 0x7f, 0x00] {
            assert(t[0] == 0xf0 && t[1] == 0 && t[2] == 0x20 && t[3] == 0x29 && t[4] == 2 && t[5]
                == 0x7f && t[6] == 0);
        }
    }
    r
}

impl SysExHandler for Handler {
    fn execute(app: AppId, port: MidiPort, device_id: u8, data: &[u8], out: &mut SysExOutput) -> (r: bool)
        ensures
            r == is_version_inquiry(data@),
            final(out).leds == old(out).leds,
            replies_view(final(out).replies@) == replies_view(old(out).replies@) + (if r {
                seq![(port, version_reply(device_id))]
            } else {
                Seq::empty()
            }),
    {
        if starts_with_inquiry(data) {
            proof {
                reveal_strlit("0");
                reveal_strlit("1");
                vstd::string::is_ascii_spec_bytes(VERSION_MAJOR);
                vstd::string::is_ascii_spec_bytes(VERSION_MINOR);
                vstd::string::is_ascii_spec_bytes(VERSION_PATCH);
                assert(VERSION_MAJOR.spec_bytes() =~= seq![48u8]);
                assert(VERSION_MINOR.spec_bytes() =~= seq![49u8]);
                assert(VERSION_PATCH.spec_bytes() =~= seq![48u8]);
                assert(seq![48u8].drop_last() =~= Seq::<u8>::empty());
                assert(seq![49u8].drop_last() =~= Seq::<u8>::empty());
                assert(decimal_value(Seq::<u8>::empty()) == 0);
                assert(decimal_value(seq![48u8]) == 0);
                assert(decimal_value(seq![49u8]) == 1);
                assert(decimal_value(VERSION_MAJOR.spec_bytes()) <= 255);
                assert(decimal_value(VERSION_MINOR.spec_bytes()) <= 255);
                assert(decimal_value(VERSION_PATCH.spec_bytes()) <= 255);
            }
            let major = parse_u8(VERSION_MAJOR);
            let minor = parse_u8(VERSION_MINOR);
            let patch = parse_u8(VERSION_PATCH);
            let resp = vec![
                0xf0,
                0x00,
                0x20,
                0x29,
                0x02,
                0x7f,
                0x01,
                device_id,
                major & 0x7f,
                minor & 0x7f,
                patch & 0x7f,
                0xf7,
            ];
            assert(resp@ =~= version_reply(device_id));
            out.send_midi(port, resp);
            assert(replies_view(old(out).replies@).push((port, version_reply(device_id)))
                =~= replies_view(old(out).replies@) + seq![(port, version_reply(device_id))]);
            true
        } else {
            assert(replies_view(out.replies@) + Seq::empty() =~= replies_view(out.replies@));
            false
        }
    }
}

} // verus!
