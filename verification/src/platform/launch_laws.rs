//! What the names and states handed to the system stand for.

use crate::platform::autostart::{AutoStartState, WindowsAutoStart};
use crate::platform::single_instance;
use vstd::prelude::*;

verus! {

/// What a hexadecimal digit is worth.
pub open spec fn hex_worth(c: char) -> int {
    if '0' <= c <= '9' {
        c as int - '0' as int
    } else {
        c as int - 'a' as int + 10
    }
}

/// What a run of hexadecimal digits is worth.
pub open spec fn hex_value(digits: Seq<char>) -> int
    decreases digits.len(),
{
    if digits.len() == 0 {
        0
    } else {
        hex_value(digits.drop_last()) * 16 + hex_worth(digits.last())
    }
}

/// A number is written in lower-case hexadecimal, as wide as asked for, and reads back as itself
/// where it fits.
pub proof fn law_a_fingerprint_reads_back(n: nat, width: nat)
    ensures
        ({
            let said = single_instance::hex(n, width);
            &&& said.len() == width
            &&& forall|i: int|
                0 <= i < said.len() ==> '0' <= #[trigger] said[i] <= '9' || 'a' <= said[i] <= 'f'
            &&& n < vstd::arithmetic::power::pow(16, width) ==> hex_value(said) == n
        }),
    decreases width,
{
    reveal(vstd::arithmetic::power::pow);
    if width == 0 {
        assert(vstd::arithmetic::power::pow(16, 0) == 1);
    } else {
        let less = (width - 1) as nat;
        law_a_fingerprint_reads_back(n / 16, less);
        let said = single_instance::hex(n, width);
        let front = single_instance::hex(n / 16, less);
        assert(said.drop_last() =~= front);
        assert(hex_worth(said.last()) == n % 16);
        let power = vstd::arithmetic::power::pow(16, less);
        assert(vstd::arithmetic::power::pow(16, width) == 16 * power);
        if n < 16 * power {
            assert(n / 16 < power) by (nonlinear_arith)
                requires
                    n < 16 * power,
            ;
        }
        assert forall|i: int| 0 <= i < said.len() implies '0' <= #[trigger] said[i] <= '9' || 'a'
            <= said[i] <= 'f' by {
            if i < front.len() {
                assert(said[i] == front[i]);
            }
        }
    }
}

/// A claim is named after the fingerprint, sixteen digits wide, among this session's names.
pub proof fn law_a_claim_is_named_after_its_fingerprint(id: u64)
    ensures
        single_instance::claim_name(id).len() == 15 + 16,
        "Local\\SyncMaid-"@.is_prefix_of(single_instance::claim_name(id)),
        hex_value(single_instance::claim_name(id).skip(15)) == id,
{
    reveal_strlit("Local\\SyncMaid-");
    law_a_fingerprint_reads_back(id as nat, 16);
    let digits = single_instance::hex(id as nat, 16);
    let name = single_instance::claim_name(id);
    assert(name.skip(15) =~= digits);
    assert(name.take(15) =~= "Local\\SyncMaid-"@);
    assert(id < vstd::arithmetic::power::pow(16, 16)) by {
        reveal_with_fuel(vstd::arithmetic::power::pow, 17);
    }
}

/// The fingerprint starts from the offset basis, and each byte is mixed in before the product with
/// the prime, which is cut to sixty-four bits.
pub proof fn law_each_byte_is_mixed_in_before_the_product(bytes: Seq<u8>, byte: u8)
    ensures
        single_instance::fnv(Seq::empty()) == 0xcbf2_9ce4_8422_2325,
        single_instance::fnv(bytes.push(byte)) as int == ((single_instance::fnv(bytes) ^ (
        byte as u64)) * 0x100_0000_01b3) % 0x1_0000_0000_0000_0000,
{
    assert(bytes.push(byte).drop_last() =~= bytes);
}

/// The fingerprint is of the directory's name in capitals, as it is encoded.
pub proof fn law_the_fingerprint_is_of_the_name_in_capitals(directory: Seq<char>)
    ensures
        single_instance::identity(directory) == single_instance::fnv(
            vstd::utf8::encode_utf8(single_instance::uppercase(directory)),
        ),
{
}

/// The character that one or two units of UTF-16 stand for.
pub open spec fn decoded(units: Seq<u16>) -> int {
    if units.len() == 1 {
        units[0] as int
    } else {
        0x1_0000 + (units[0] - 0xd800) * 0x400 + (units[1] - 0xdc00)
    }
}

/// A character takes one unit, which is no half of a pair, or a high and a low half; either way it
/// is what they stand for.
pub proof fn law_a_character_reads_back_from_its_units(c: char)
    ensures
        ({
            let units = single_instance::utf16(c);
            &&& decoded(units) == c as int
            &&& units.len() == 1 || units.len() == 2
            &&& units.len() == 1 ==> !(0xd800 <= units[0] < 0xe000)
            &&& units.len() == 2 ==> 0xd800 <= units[0] < 0xdc00 && 0xdc00 <= units[1] < 0xe000
        }),
{
}

/// A text is the units of its characters, one character after the other.
pub proof fn law_a_text_is_the_units_of_its_characters(text: Seq<char>, c: char)
    ensures
        single_instance::utf16_text(Seq::empty()) == Seq::<u16>::empty(),
        single_instance::utf16_text(text.push(c)) == single_instance::utf16_text(text)
            + single_instance::utf16(c),
{
    assert(text.push(c).drop_last() =~= text);
}

/// The app starts with Windows exactly when it is registered and Windows has not switched it off,
/// which it does with an odd first byte; it is only held back where it is registered.
pub proof fn law_the_app_starts_exactly_when_registered_and_not_held_back(
    registry: WindowsAutoStart,
)
    ensures
        ({
            let registered = registry.run matches Some(command) && command@.len() > 0;
            let held_back = registry.approved matches Some(bytes) && bytes@.len() > 0 && bytes@[0]
                % 2 == 1;
            &&& registry.says() == AutoStartState::Enabled <==> registered && !held_back
            &&& registry.says() == AutoStartState::DisabledByWindows <==> registered && held_back
            &&& registry.says() == AutoStartState::Disabled <==> !registered
        }),
{
}

} // verus!
