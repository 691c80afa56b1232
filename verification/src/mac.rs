//! Hardware addresses: six octets, read from text and written back.

use crate::fields::{
    all_hex_digits, field_values, hex_number, join, lacks, lemma_hex_number_one,
    lemma_hex_number_two, lemma_join_pairs, lemma_join_split, lemma_split_join, split,
};
use crate::hex::{
    hex_digit, hex_digit_char, hex_digit_text, hex_digit_value, is_hex_digit,
    lemma_hex_digit_char_value,
};
use vstd::prelude::*;
use vstd::string::*;

verus! {

/// Number of octets in a hardware address.
pub const MAC_ADDR_SIZE: usize = 6;

/// Number of characters in the text of a hardware address: six fields of two
/// digits, five separators between them.
pub const MAC_TEXT_LEN: usize = 17;

/// A hardware address of six octets, such as `00:0a:0b:0c:0d:0e`.
#[derive(Debug, Eq, PartialEq, Copy, Clone)]
pub struct MacAddr(pub [u8; 6]);

/// The one way in which reading an address fails: the text is malformed.
#[derive(Debug, Eq, PartialEq, Copy, Clone)]
pub struct MacAddrError {}

impl View for MacAddr {
    type V = Seq<u8>;

    open spec fn view(&self) -> Seq<u8> {
        self.0@
    }
}

/// The text of an address: seventeen characters, of which every third is the
/// separator, the same character each time, and the others are hexadecimal
/// digits other than the separator. The separator is whatever stands at
/// index 2.
pub open spec fn is_mac_text(s: Seq<char>) -> bool {
    &&& s.len() == 17
    &&& forall|i: int|
        0 <= i < 17 ==> if i % 3 == 2 {
            #[trigger] s[i] == s[2]
        } else {
            is_hex_digit(s[i]) && s[i] != s[2]
        }
}

/// The value of the two digits that form field `k` of an address text.
pub open spec fn text_octet(s: Seq<char>, k: int) -> u8 {
    (16 * hex_digit_value(s[3 * k]) + hex_digit_value(s[3 * k + 1])) as u8
}

/// The six octets that an address text denotes.
pub open spec fn text_octets(s: Seq<char>) -> Seq<u8> {
    Seq::new(6, |k: int| text_octet(s, k))
}

/// An octet in lower-case hexadecimal, without a leading zero.
pub open spec fn octet_text(b: u8) -> Seq<char> {
    if b < 16 {
        seq![hex_digit_char(b as nat)]
    } else {
        seq![hex_digit_char((b / 16) as nat), hex_digit_char((b % 16) as nat)]
    }
}

/// The canonical text of an address: each octet as `octet_text` writes it,
/// with a colon between neighbours.
pub open spec fn canonical_text(octets: Seq<u8>) -> Seq<char> {
    join(octets.map_values(|b: u8| octet_text(b)), ':')
}

impl MacAddrError {
    /// What to tell a person about the failure.
    pub fn message(&self) -> (text: String)
        ensures
            text@ == "Invalid mac address"@,
    {
        String::from_str("Invalid mac address")
    }
}

impl MacAddr {
    /// Reads an address from its text.
    ///
    /// The text is accepted exactly when it has the layout of `is_mac_text`;
    /// the case of the digits does not matter, and any character may separate
    /// the fields as long as it is the same one throughout.
    pub fn parse(s: &str) -> (r: Result<MacAddr, MacAddrError>)
        ensures
            r is Ok <==> is_mac_text(s@),
            r is Ok ==> r->Ok_0@ == text_octets(s@),
    {
        if s.unicode_len() != MAC_TEXT_LEN {
            return Err(MacAddrError {});
        }
        let separator = s.get_char(2);
        let mut octets: [u8; 6] = [0; 6];
        let mut k: usize = 0;
        while k < MAC_ADDR_SIZE
            invariant
                k <= 6,
                s@.len() == 17,
                separator == s@[2],
                forall|i: int|
                    0 <= i < 3 * k && i < 17 ==> if i % 3 == 2 {
                        #[trigger] s@[i] == s@[2]
                    } else {
                        is_hex_digit(s@[i]) && s@[i] != s@[2]
                    },
                forall|j: int| 0 <= j < k ==> octets@[j] == text_octet(s@, j),
            decreases 6 - k,
        {
            let high_char = s.get_char(3 * k);
            let low_char = s.get_char(3 * k + 1);
            if high_char == separator || low_char == separator {
                return Err(MacAddrError {});
            }
            if k + 1 < MAC_ADDR_SIZE && s.get_char(3 * k + 2) != separator {
                return Err(MacAddrError {});
            }
            match (hex_digit(high_char), hex_digit(low_char)) {
                (Some(high), Some(low)) => {
                    octets[k] = 16 * high + low;
                },
                _ => {
                    return Err(MacAddrError {});
                },
            }
            k += 1;
        }
        let mac = MacAddr(octets);
        assert(mac@ =~= text_octets(s@));
        Ok(mac)
    }

    /// Writes the address in canonical form: the octets in lower-case
    /// hexadecimal, without leading zeros, joined by colons.
    pub fn render(&self) -> (text: String)
        ensures
            text@ == canonical_text(self@),
    {
        let mut text = String::new();
        let mut k: usize = 0;
        while k < MAC_ADDR_SIZE
            invariant
                k <= 6,
                self@.len() == 6,
                text@ == canonical_text(self@.take(k as int)),
            decreases 6 - k,
        {
            if k > 0 {
                proof {
                    reveal_strlit(":");
                }
                text.append(":");
            }
            let octet: u8 = self.0[k];
            if octet >= 16 {
                text.append(hex_digit_text(octet / 16));
            }
            text.append(hex_digit_text(octet % 16));
            proof {
                let done = self@.take(k as int).map_values(|b: u8| octet_text(b));
                let more = self@.take(k + 1).map_values(|b: u8| octet_text(b));
                assert(more.drop_last() =~= done);
                assert(more.last() == octet_text(octet));
                if k > 0 {
                    assert(text@ =~= join(done, ':').push(':') + octet_text(octet));
                } else {
                    assert(text@ =~= octet_text(octet));
                }
            }
            k += 1;
        }
        assert(self@.take(6) =~= self@);
        text
    }
}

impl Default for MacAddr {
    /// The address whose octets are all zero.
    fn default() -> (mac: MacAddr)
        ensures
            mac@ == Seq::new(6, |k: int| 0u8),
    {
        let mac = MacAddr([0; 6]);
        assert(mac@ =~= Seq::new(6, |k: int| 0u8));
        mac
    }
}

impl core::str::FromStr for MacAddr {
    type Err = MacAddrError;

    fn from_str(s: &str) -> (r: Result<MacAddr, MacAddrError>)
        ensures
            r is Ok <==> is_mac_text(s@),
            r is Ok ==> r->Ok_0@ == text_octets(s@),
    {
        MacAddr::parse(s)
    }
}

/// Field `k` of an address text: the two digits before the separator
/// number `k`, or at the end.
pub open spec fn text_field(s: Seq<char>, k: int) -> Seq<char> {
    s.subrange(3 * k, 3 * k + 2)
}

/// The six fields of an address text.
pub open spec fn text_fields(s: Seq<char>) -> Seq<Seq<char>> {
    Seq::new(6, |k: int| text_field(s, k))
}

/// An address text is its six fields, joined by the character at index 2;
/// cut at that character it falls into just these fields, and what they
/// write in base 16 are the octets that the text denotes.
pub proof fn lemma_mac_text_fields(s: Seq<char>)
    requires
        is_mac_text(s),
    ensures
        join(text_fields(s), s[2]) == s,
        split(s, s[2]) == text_fields(s),
        field_values(s, s[2]) == text_octets(s).map_values(|b: u8| b as nat),
{
    let sep = s[2];
    let fields = text_fields(s);
    lemma_join_pairs(fields, sep, 6);
    assert(fields.take(6) =~= fields);
    let joined = join(fields, sep);
    assert forall|i: int| 0 <= i < 17 implies joined[i] == s[i] by {
        if i % 3 != 2 {
            assert(fields[i / 3][i % 3] == s[3 * (i / 3) + i % 3]);
        }
    }
    assert(joined =~= s);
    assert forall|k: int| 0 <= k < 6 implies lacks(#[trigger] fields[k], sep) by {
        assert forall|j: int| 0 <= j < fields[k].len() implies fields[k][j] != sep by {
            assert(fields[k][j] == s[3 * k + j]);
        }
    }
    lemma_split_join(fields, sep);
    assert forall|k: int| 0 <= k < 6 implies hex_number(#[trigger] fields[k]) == text_octet(
        s,
        k,
    ) as nat by {
        assert(fields[k] =~= seq![s[3 * k], s[3 * k + 1]]);
        lemma_hex_number_two(s[3 * k], s[3 * k + 1]);
        assert(is_hex_digit(s[3 * k]) && is_hex_digit(s[3 * k + 1]));
    }
    assert(field_values(s, sep) =~= text_octets(s).map_values(|b: u8| b as nat));
}

/// A text is that of an address exactly when it has seventeen characters
/// and, cut at the character at index 2, falls into six fields of two
/// hexadecimal digits each. So a text of another length, one whose
/// separators differ, one with a field that is no two-digit hexadecimal
/// number, and one with more or fewer than six fields are all turned down.
pub proof fn lemma_mac_text_by_fields(s: Seq<char>)
    ensures
        is_mac_text(s) <==> {
            &&& s.len() == 17
            &&& split(s, s[2]).len() == 6
            &&& forall|k: int|
                0 <= k < 6 ==> (#[trigger] split(s, s[2])[k]).len() == 2 && all_hex_digits(
                    split(s, s[2])[k],
                )
        },
{
    if is_mac_text(s) {
        lemma_mac_text_fields(s);
        assert forall|k: int| 0 <= k < 6 implies (#[trigger] split(s, s[2])[k]).len() == 2
            && all_hex_digits(split(s, s[2])[k]) by {
            let field = split(s, s[2])[k];
            assert forall|j: int| 0 <= j < field.len() implies is_hex_digit(
                #[trigger] field[j],
            ) by {
                assert(field[j] == s[3 * k + j]);
            }
        }
    }
    if s.len() == 17 {
        let sep = s[2];
        let fields = split(s, sep);
        if fields.len() == 6 && (forall|k: int|
            0 <= k < 6 ==> (#[trigger] fields[k]).len() == 2 && all_hex_digits(fields[k])) {
            lemma_join_split(s, sep);
            lemma_join_pairs(fields, sep, 6);
            assert(fields.take(6) =~= fields);
            assert forall|i: int| 0 <= i < 17 implies if i % 3 == 2 {
                #[trigger] s[i] == s[2]
            } else {
                is_hex_digit(s[i]) && s[i] != s[2]
            } by {
                assert(s[i] == join(fields, sep)[i]);
                if i % 3 != 2 {
                    let field = fields[i / 3];
                    assert(s[i] == field[i % 3]);
                    assert(lacks(field, sep));
                    assert(all_hex_digits(field));
                }
            }
        }
    }
}

/// The canonical text of any octets falls at the colons into one field for
/// each octet, and each field writes its octet in base 16.
pub proof fn lemma_canonical_text_values(octets: Seq<u8>)
    requires
        octets.len() >= 1,
    ensures
        split(canonical_text(octets), ':') == octets.map_values(|b: u8| octet_text(b)),
        field_values(canonical_text(octets), ':') == octets.map_values(|b: u8| b as nat),
{
    let fields = octets.map_values(|b: u8| octet_text(b));
    assert forall|k: int| 0 <= k < fields.len() implies lacks(#[trigger] fields[k], ':')
        && hex_number(fields[k]) == octets[k] as nat by {
        let b = octets[k];
        lemma_hex_digit_char_value((b / 16) as nat);
        lemma_hex_digit_char_value((b % 16) as nat);
        if b < 16 {
            lemma_hex_number_one(hex_digit_char(b as nat));
        } else {
            lemma_hex_number_two(hex_digit_char((b / 16) as nat), hex_digit_char((b % 16) as nat));
        }
    }
    lemma_split_join(fields, ':');
    assert(field_values(canonical_text(octets), ':') =~= octets.map_values(|b: u8| b as nat));
}

/// Reading an address text and writing the result in canonical form keeps
/// the octets: the fields of the canonical text write the same numbers, in
/// the same order, as the fields of the text that was read, whatever its
/// separator and the case of its digits were.
pub proof fn lemma_render_keeps_octets(s: Seq<char>)
    requires
        is_mac_text(s),
    ensures
        field_values(canonical_text(text_octets(s)), ':') == field_values(s, s[2]),
        field_values(s, s[2]) == text_octets(s).map_values(|b: u8| b as nat),
{
    lemma_mac_text_fields(s);
    lemma_canonical_text_values(text_octets(s));
}

/// The canonical text of six octets is itself the text of an address, and
/// denotes the same octets, as long as every octet takes two digits. With an
/// octet below 16 it is shorter than an address text and is not read back.
pub proof fn lemma_canonical_text_reads_back(octets: Seq<u8>)
    requires
        octets.len() == 6,
    ensures
        (forall|k: int| 0 <= k < 6 ==> octets[k] >= 16) ==> is_mac_text(canonical_text(octets))
            && text_octets(canonical_text(octets)) == octets,
        (exists|k: int| 0 <= k < 6 && octets[k] < 16) ==> !is_mac_text(canonical_text(octets)),
{
    let fields = octets.map_values(|b: u8| octet_text(b));
    let text = canonical_text(octets);
    if forall|k: int| 0 <= k < 6 ==> octets[k] >= 16 {
        lemma_join_pairs(fields, ':', 6);
        assert(fields.take(6) =~= fields);
        assert forall|i: int| 0 <= i < 17 && i % 3 != 2 implies is_hex_digit(#[trigger] text[i])
            && text[i] != ':' && hex_digit_value(text[i]) == (if i % 3 == 0 {
            octets[i / 3] / 16
        } else {
            octets[i / 3] % 16
        }) by {
            let b = octets[i / 3];
            assert(text[i] == fields[i / 3][i % 3]);
            lemma_hex_digit_char_value((b / 16) as nat);
            lemma_hex_digit_char_value((b % 16) as nat);
        }
        assert(text[2] == ':');
        assert(is_mac_text(text));
        assert forall|k: int| 0 <= k < 6 implies text_octet(text, k) == octets[k] by {
            assert(is_hex_digit(text[3 * k]) && is_hex_digit(text[3 * k + 1]));
        }
        assert(text_octets(text) =~= octets);
    }
    if exists|k: int| 0 <= k < 6 && octets[k] < 16 {
        let short = choose|k: int| 0 <= k < 6 && octets[k] < 16;
        // Cut at the colons, the text has a field of one digit.
        lemma_canonical_text_values(octets);
        assert(split(text, ':')[short] == octet_text(octets[short]));
        if is_mac_text(text) {
            // Cut at its separator, it has six fields of two digits. So the
            // separator is no colon; then no colon occurs in it at all, and
            // cut at the colons it is a single field.
            lemma_mac_text_by_fields(text);
            assert forall|i: int| 0 <= i < text.len() implies text[i] != ':' by {
                if i % 3 == 2 {
                    assert(text[i] == text[2]);
                } else {
                    assert(is_hex_digit(text[i]));
                }
            }
            assert(lacks(text, ':'));
            lemma_split_join(seq![text], ':');
            assert(join(seq![text], ':') == text);
        }
    }
}

} // verus!
