//! Persisted device address bindings (`DeviceID MAC SNET SADR MAX-APDU`), so a client
//! can resume talking to known devices without repeating discovery.
//!
//! The text of an internet address is taken and given as it is; whoever reads and
//! writes the file turns it into an address and back.

use crate::address::SocketAddress;
use crate::client::target;
use crate::client::target::{
    BacnetTarget, DeviceCapabilities, NetworkAddress, NetworkAddressView, Segmentation,
};
use crate::text;
use crate::text::{
    append_hex_octet, decimal_text, parse_number, split_parts, split_words,
};
use vstd::prelude::*;

verus! {

/// One cached device binding.
#[derive(Debug, Clone, PartialEq, Eq)]
pub struct CachedDevice {
    pub device_id: u32,
    pub target: BacnetTarget,
    pub max_apdu: u32,
    pub segmentation: Segmentation,
}

/// What one line holds.
#[derive(Debug, Clone, PartialEq, Eq)]
pub struct CachedLine {
    /// The device's instance number.
    pub device_id: u32,
    /// Its address as the line has it.
    pub address: String,
    /// Its address behind a router, where it is.
    pub route: Option<NetworkAddress>,
    /// The largest APDU it accepts.
    pub max_apdu: u32,
    /// Which directions it can split messages in.
    pub segmentation: Segmentation,
}

/// A [`CachedLine`] as values.
#[verifier::ext_equal]
pub struct LineView {
    pub device_id: u32,
    pub address: Seq<char>,
    pub route: Option<NetworkAddressView>,
    pub max_apdu: u32,
    pub segmentation: Segmentation,
}

impl View for CachedLine {
    type V = LineView;

    open spec fn view(&self) -> LineView {
        LineView {
            device_id: self.device_id,
            address: self.address@,
            route: target::route_view(self.route),
            max_apdu: self.max_apdu,
            segmentation: self.segmentation,
        }
    }
}

/// What a device's line says, its address being written so.
pub open spec fn line_for(device: CachedDevice, address: Seq<char>) -> LineView {
    LineView {
        device_id: device.device_id,
        address,
        route: target::route_view(device.target.route),
        max_apdu: device.max_apdu,
        segmentation: device.segmentation,
    }
}

impl CachedLine {
    /// The device a line describes, once its address is known.
    pub fn bound_to(self, address: SocketAddress) -> (device: CachedDevice)
        ensures
            device == (CachedDevice {
                device_id: self.device_id,
                target: BacnetTarget {
                    address,
                    route: self.route,
                    capabilities: Some(
                        DeviceCapabilities {
                            max_apdu: self.max_apdu,
                            segmentation: self.segmentation,
                        },
                    ),
                },
                max_apdu: self.max_apdu,
                segmentation: self.segmentation,
            }),
    {
        CachedDevice {
            device_id: self.device_id,
            target: BacnetTarget {
                address,
                route: self.route,
                capabilities: Some(
                    DeviceCapabilities {
                        max_apdu: self.max_apdu,
                        segmentation: self.segmentation,
                    },
                ),
            },
            max_apdu: self.max_apdu,
            segmentation: self.segmentation,
        }
    }
}

// ---------------------------------------------------------------------------
// What a line means
// ---------------------------------------------------------------------------

/// The word for a segmentation.
pub open spec fn segmentation_word(segmentation: Segmentation) -> Seq<char> {
    match segmentation {
        Segmentation::Both => "both"@,
        Segmentation::Transmit => "transmit"@,
        Segmentation::Receive => "receive"@,
        Segmentation::NoSegmentation => "none"@,
    }
}

/// The segmentation a word stands for.
///
/// An unrecognized word stands for the conservative choice: assuming less capability
/// than a device has costs a few extra round trips, assuming more is the failure mode
/// this exists to avoid.
pub open spec fn segmentation_named(word: Seq<char>) -> Segmentation {
    if word == "both"@ {
        Segmentation::Both
    } else if word == "transmit"@ {
        Segmentation::Transmit
    } else if word == "receive"@ {
        Segmentation::Receive
    } else {
        Segmentation::NoSegmentation
    }
}

/// The octets that parts stand for, where each part is one.
pub open spec fn octets_of(parts: Seq<Seq<char>>) -> Option<Seq<u8>>
    decreases parts.len(),
{
    if parts.len() == 0 {
        Some(Seq::empty())
    } else {
        match (octets_of(parts.drop_last()), text::number_in(parts.last(), 16, 255)) {
            (Some(before), Some(octet)) => Some(before.push(octet as u8)),
            _ => None,
        }
    }
}

/// The octets that a text in hexadecimal with colons stands for; a lone zero stands
/// for none.
pub open spec fn hex_octets(hex: Seq<char>) -> Option<Seq<u8>> {
    if hex == "0"@ {
        Some(Seq::empty())
    } else {
        octets_of(text::parts(hex, ':'))
    }
}

/// What a line means: nothing, where it is blank, a comment or malformed.
///
/// A network number of zero means that the device is not behind a router, and so does
/// an address that cannot be read.
pub open spec fn meaning(line: Seq<char>) -> Option<LineView> {
    let fields = text::words(line);
    if fields.len() < 5 || fields[0][0] == ';' {
        None
    } else {
        match (
            text::number_in(fields[0], 10, u32::MAX as nat),
            text::number_in(fields[2], 10, u16::MAX as nat),
            text::number_in(fields[4], 10, u32::MAX as nat),
        ) {
            (Some(device_id), Some(network), Some(max_apdu)) => Some(
                LineView {
                    device_id: device_id as u32,
                    address: fields[1],
                    route: match hex_octets(fields[3]) {
                        Some(address) => if network != 0 {
                            Some(NetworkAddressView { network: network as u16, address })
                        } else {
                            None
                        },
                        None => None,
                    },
                    max_apdu: max_apdu as u32,
                    segmentation: if fields.len() > 5 {
                        segmentation_named(fields[5])
                    } else {
                        Segmentation::NoSegmentation
                    },
                },
            ),
            _ => None,
        }
    }
}

/// What lines mean, those without a meaning left out.
pub open spec fn meanings(lines: Seq<Seq<char>>) -> Seq<LineView>
    decreases lines.len(),
{
    if lines.len() == 0 {
        Seq::empty()
    } else {
        match meaning(lines.last()) {
            Some(line) => meanings(lines.drop_last()).push(line),
            None => meanings(lines.drop_last()),
        }
    }
}

/// Octets in hexadecimal with colons between them.
pub open spec fn hex_text(octets: Seq<u8>) -> Seq<char>
    decreases octets.len(),
{
    if octets.len() == 0 {
        "0"@
    } else if octets.len() == 1 {
        text::hex_octet(octets[0])
    } else {
        hex_text(octets.drop_last()).push(':') + text::hex_octet(octets.last())
    }
}

/// The fields of a line.
pub open spec fn fields_of(line: LineView) -> Seq<Seq<char>> {
    seq![
        text::decimal(line.device_id as nat),
        line.address,
        text::decimal(
            match line.route {
                Some(route) => route.network as nat,
                None => 0,
            },
        ),
        match line.route {
            Some(route) => hex_text(route.address),
            None => "0"@,
        },
        text::decimal(line.max_apdu as nat),
        segmentation_word(line.segmentation),
    ]
}

/// Fields with a space between them, up to one.
pub open spec fn spaced(fields: Seq<Seq<char>>) -> Seq<char>
    decreases fields.len(),
{
    if fields.len() == 0 {
        Seq::empty()
    } else if fields.len() == 1 {
        fields[0]
    } else {
        spaced(fields.drop_last()).push(' ') + fields.last()
    }
}

/// A line as text.
pub open spec fn line_text(line: LineView) -> Seq<char> {
    spaced(fields_of(line))
}

/// Lines as text, each ended.
pub open spec fn file_text(lines: Seq<LineView>) -> Seq<char>
    decreases lines.len(),
{
    if lines.len() == 0 {
        Seq::empty()
    } else {
        (file_text(lines.drop_last()) + line_text(lines.last())).push('\n')
    }
}

// ---------------------------------------------------------------------------
// Laws
// ---------------------------------------------------------------------------

/// A line that is written is read as it was, where its address has no white space in
/// it and its route, if it has one, is on a network that has a number.
pub proof fn law_lines_are_read_back(line: LineView)
    requires
        text::is_word(line.address),
        line.route matches Some(route) ==> route.network != 0,
    ensures
        meaning(line_text(line)) == Some(line),
{
    let fields = fields_of(line);
    lemma_fields_are_words(line);
    lemma_spaced_words(fields);
    let network = match line.route {
        Some(route) => route.network as nat,
        None => 0,
    };
    text::law_decimal_is_read_back(line.device_id as nat, u32::MAX as nat);
    text::law_decimal_is_read_back(network, u16::MAX as nat);
    text::law_decimal_is_read_back(line.max_apdu as nat, u32::MAX as nat);
    lemma_decimal_starts(line.device_id as nat);
    lemma_segmentation_word(line.segmentation);
    assert(fields[0][0] != ';');
    match line.route {
        Some(route) => {
            law_hex_is_read_back(route.address);
        },
        None => {},
    }
    assert(meaning(line_text(line))->Some_0 =~= line);
}

/// A file that is written is read as it was, line by line.
pub proof fn law_files_are_read_back(lines: Seq<LineView>)
    requires
        forall|i: int|
            0 <= i < lines.len() ==> text::is_word((#[trigger] lines[i]).address) && (
            lines[i].route matches Some(route) ==> route.network != 0),
    ensures
        meanings(text::parts(file_text(lines), '\n')) == lines,
{
    lemma_file_parts(lines);
    let found = text::parts(file_text(lines), '\n');
    lemma_meanings_of_written(lines);
    assert(found.drop_last() =~= written(lines));
    assert(text::words(Seq::<char>::empty()) =~= Seq::<Seq<char>>::empty());
    assert(meaning(found.last()) is None);
}

/// Octets written in hexadecimal are read as they were.
pub proof fn law_hex_is_read_back(octets: Seq<u8>)
    ensures
        hex_octets(hex_text(octets)) == Some(octets),
{
    reveal_strlit("0");
    if octets.len() == 0 {
        assert(octets =~= Seq::<u8>::empty());
    } else {
        lemma_hex_parts(octets);
        lemma_hex_length(octets);
        assert(hex_text(octets) != "0"@);
    }
}

spec fn written(lines: Seq<LineView>) -> Seq<Seq<char>> {
    lines.map_values(|line: LineView| line_text(line))
}

proof fn lemma_meanings_of_written(lines: Seq<LineView>)
    requires
        forall|i: int|
            0 <= i < lines.len() ==> text::is_word((#[trigger] lines[i]).address) && (
            lines[i].route matches Some(route) ==> route.network != 0),
    ensures
        meanings(written(lines)) == lines,
    decreases lines.len(),
{
    if lines.len() > 0 {
        let shorter = lines.drop_last();
        assert forall|i: int| 0 <= i < shorter.len() implies text::is_word(
            (#[trigger] shorter[i]).address,
        ) && (shorter[i].route matches Some(route) ==> route.network != 0) by {
            assert(shorter[i] == lines[i]);
        }
        lemma_meanings_of_written(shorter);
        assert(written(lines).drop_last() =~= written(shorter));
        assert(lines.last() == lines[lines.len() - 1]);
        law_lines_are_read_back(lines.last());
        assert(shorter.push(lines.last()) =~= lines);
    } else {
        assert(meanings(written(lines)) =~= lines);
    }
}

proof fn lemma_file_parts(lines: Seq<LineView>)
    requires
        forall|i: int| 0 <= i < lines.len() ==> text::is_word((#[trigger] lines[i]).address),
    ensures
        text::parts(file_text(lines), '\n') == written(lines).push(Seq::empty()),
    decreases lines.len(),
{
    let file = file_text(lines);
    if lines.len() == 0 {
        assert(written(lines).push(Seq::empty()) =~= seq![Seq::<char>::empty()]);
    } else {
        let shorter = lines.drop_last();
        assert forall|i: int| 0 <= i < shorter.len() implies text::is_word(
            (#[trigger] shorter[i]).address,
        ) by {
            assert(shorter[i] == lines[i]);
        }
        lemma_file_parts(shorter);
        let before = file_text(shorter);
        let line = line_text(lines.last());
        assert(lines.last() == lines[lines.len() - 1]);
        lemma_line_has_no_end(lines.last());
        lemma_behind_empty_part(before, line, '\n');
        text::lemma_part_behind(before + line, Seq::empty(), '\n');
        assert((before + line).push('\n') + Seq::<char>::empty() =~= file);
        assert(written(shorter).push(Seq::empty()).drop_last() =~= written(shorter));
        assert(written(lines) =~= written(shorter).push(line));
    }
}

/// Text without separators behind a text whose last part is empty is that last part.
proof fn lemma_behind_empty_part(before: Seq<char>, part: Seq<char>, separator: char)
    requires
        text::parts(before, separator).len() > 0,
        text::parts(before, separator).last() == Seq::<char>::empty(),
        forall|i: int| 0 <= i < part.len() ==> (#[trigger] part[i]) != separator,
    ensures
        text::parts(before + part, separator) == text::parts(before, separator).drop_last().push(
            part,
        ),
    decreases part.len(),
{
    let found = text::parts(before, separator);
    if part.len() == 0 {
        assert(before + part =~= before);
        assert(part =~= Seq::<char>::empty());
        assert(found.drop_last().push(part) =~= found);
    } else {
        let shorter = part.drop_last();
        assert forall|i: int| 0 <= i < shorter.len() implies (#[trigger] shorter[i])
            != separator by {
            assert(shorter[i] == part[i]);
        }
        lemma_behind_empty_part(before, shorter, separator);
        let whole = before + part;
        assert(whole.drop_last() =~= before + shorter);
        assert(whole.last() == part[part.len() - 1]);
        assert(found.drop_last().push(shorter).drop_last() =~= found.drop_last());
        assert(shorter.push(part.last()) =~= part);
    }
}

proof fn lemma_line_has_no_end(line: LineView)
    requires
        text::is_word(line.address),
    ensures
        forall|i: int| 0 <= i < line_text(line).len() ==> (#[trigger] line_text(line)[i]) != '\n',
{
    lemma_fields_are_words(line);
    lemma_spaced_has_no_end(fields_of(line));
}

proof fn lemma_spaced_has_no_end(fields: Seq<Seq<char>>)
    requires
        forall|k: int| 0 <= k < fields.len() ==> text::is_word(#[trigger] fields[k]),
    ensures
        forall|i: int| 0 <= i < spaced(fields).len() ==> (#[trigger] spaced(fields)[i]) != '\n',
    decreases fields.len(),
{
    if fields.len() == 1 {
        assert(text::is_word(fields[0]));
        assert forall|i: int| 0 <= i < spaced(fields).len() implies (#[trigger] spaced(fields)[i])
            != '\n' by {
            assert(!text::is_white(fields[0][i]));
        }
    } else if fields.len() > 1 {
        let shorter = fields.drop_last();
        assert forall|k: int| 0 <= k < shorter.len() implies text::is_word(
            #[trigger] shorter[k],
        ) by {
            assert(shorter[k] == fields[k]);
        }
        lemma_spaced_has_no_end(shorter);
        let last = fields.last();
        assert(text::is_word(fields[fields.len() - 1]));
        let before = spaced(shorter).push(' ');
        assert forall|i: int| 0 <= i < spaced(fields).len() implies (#[trigger] spaced(fields)[i])
            != '\n' by {
            if i < spaced(shorter).len() {
                assert(spaced(fields)[i] == spaced(shorter)[i]);
            } else if i >= before.len() {
                assert(spaced(fields)[i] == last[i - before.len()]);
                assert(!text::is_white(last[i - before.len()]));
            }
        }
    }
}

proof fn lemma_spaced_words(fields: Seq<Seq<char>>)
    requires
        forall|k: int| 0 <= k < fields.len() ==> text::is_word(#[trigger] fields[k]),
    ensures
        text::words(spaced(fields)) == fields,
    decreases fields.len(),
{
    if fields.len() == 0 {
        assert(text::words(spaced(fields)) =~= fields);
    } else if fields.len() == 1 {
        assert(text::is_word(fields[0]));
        text::lemma_word_behind(Seq::empty(), fields[0]);
        assert(Seq::<char>::empty() + fields[0] =~= fields[0]);
        assert(text::words(spaced(fields)) =~= fields);
    } else {
        let shorter = fields.drop_last();
        assert forall|k: int| 0 <= k < shorter.len() implies text::is_word(
            #[trigger] shorter[k],
        ) by {
            assert(shorter[k] == fields[k]);
        }
        lemma_spaced_words(shorter);
        assert(text::is_word(fields[fields.len() - 1]));
        text::lemma_space_behind(spaced(shorter));
        text::lemma_word_behind(spaced(shorter).push(' '), fields.last());
        assert(shorter.push(fields.last()) =~= fields);
    }
}

proof fn lemma_fields_are_words(line: LineView)
    requires
        text::is_word(line.address),
    ensures
        forall|k: int| 0 <= k < fields_of(line).len() ==> text::is_word(#[trigger] fields_of(line)[k]),
{
    let fields = fields_of(line);
    lemma_decimal_is_word(line.device_id as nat);
    lemma_decimal_is_word(0);
    lemma_decimal_is_word(line.max_apdu as nat);
    lemma_segmentation_word(line.segmentation);
    reveal_strlit("0");
    match line.route {
        Some(route) => {
            lemma_decimal_is_word(route.network as nat);
            lemma_hex_is_word(route.address);
        },
        None => {},
    }
    assert forall|k: int| 0 <= k < fields.len() implies text::is_word(#[trigger] fields[k]) by {
        assert(k == 0 || k == 1 || k == 2 || k == 3 || k == 4 || k == 5);
    }
}

proof fn lemma_decimal_is_word(n: nat)
    ensures
        text::is_word(text::decimal(n)),
    decreases n,
{
    let digits = text::decimal(n);
    if n >= 10 {
        lemma_decimal_is_word(n / 10);
    }
    assert forall|i: int| 0 <= i < digits.len() implies !text::is_white(#[trigger] digits[i]) by {
        if n >= 10 && i < digits.len() - 1 {
            assert(digits[i] == text::decimal(n / 10)[i]);
        }
    }
}

proof fn lemma_decimal_starts(n: nat)
    ensures
        text::decimal(n).len() > 0,
        text::decimal(n)[0] != ';',
    decreases n,
{
    if n >= 10 {
        lemma_decimal_starts(n / 10);
        assert(text::decimal(n)[0] == text::decimal(n / 10)[0]);
    }
}

proof fn lemma_segmentation_word(segmentation: Segmentation)
    ensures
        text::is_word(segmentation_word(segmentation)),
        segmentation_named(segmentation_word(segmentation)) == segmentation,
{
    reveal_strlit("both");
    reveal_strlit("transmit");
    reveal_strlit("receive");
    reveal_strlit("none");
    assert("both"@.len() == 4);
    assert("transmit"@.len() == 8);
    assert("receive"@.len() == 7);
    assert("none"@.len() == 4);
    assert("both"@[0] == 'b');
    assert("none"@[0] == 'n');
}

proof fn lemma_hex_length(octets: Seq<u8>)
    requires
        octets.len() > 0,
    ensures
        hex_text(octets).len() >= 2,
    decreases octets.len(),
{
    if octets.len() > 1 {
        lemma_hex_length(octets.drop_last());
    }
}

proof fn lemma_hex_is_word(octets: Seq<u8>)
    ensures
        text::is_word(hex_text(octets)),
    decreases octets.len(),
{
    reveal_strlit("0");
    if octets.len() > 1 {
        let shorter = hex_text(octets.drop_last());
        let last = text::hex_octet(octets.last());
        lemma_hex_is_word(octets.drop_last());
        let whole = hex_text(octets);
        assert forall|i: int| 0 <= i < whole.len() implies !text::is_white(#[trigger] whole[i]) by {
            if i < shorter.len() {
                assert(whole[i] == shorter[i]);
            } else if i > shorter.len() {
                assert(whole[i] == last[i - shorter.len() - 1]);
            }
        }
    }
}

proof fn lemma_hex_parts(octets: Seq<u8>)
    requires
        octets.len() > 0,
    ensures
        octets_of(text::parts(hex_text(octets), ':')) == Some(octets),
    decreases octets.len(),
{
    let last = text::hex_octet(octets.last());
    text::law_hex_is_read_back(octets.last());
    if octets.len() == 1 {
        text::lemma_one_part(last, ':');
        assert(seq![last].drop_last() =~= Seq::<Seq<char>>::empty());
        reveal_with_fuel(octets_of, 2);
        assert(Seq::<u8>::empty().push(octets[0]) =~= octets);
    } else {
        let shorter = octets.drop_last();
        lemma_hex_parts(shorter);
        text::lemma_part_behind(hex_text(shorter), last, ':');
        let found = text::parts(hex_text(octets), ':');
        assert(found.drop_last() =~= text::parts(hex_text(shorter), ':'));
        assert(shorter.push(octets.last()) =~= octets);
    }
}

// ---------------------------------------------------------------------------
// Reading and writing
// ---------------------------------------------------------------------------

/// Whether two texts are the same.
fn is_text(text: &str, other: &str) -> (same: bool)
    ensures
        same == (text@ == other@),
{
    let length = text.unicode_len();
    if other.unicode_len() != length {
        return false;
    }
    let mut i: usize = 0;
    while i < length
        invariant
            i <= length,
            length == text@.len(),
            length == other@.len(),
            forall|j: int| 0 <= j < i ==> text@[j] == other@[j],
        decreases length - i,
    {
        if text.get_char(i) != other.get_char(i) {
            return false;
        }
        i += 1;
    }
    proof {
        assert(text@ =~= other@);
    }
    true
}

/// The word for a segmentation.
pub fn segmentation_to_str(segmentation: Segmentation) -> (word: &'static str)
    ensures
        word@ == segmentation_word(segmentation),
{
    match segmentation {
        Segmentation::Both => "both",
        Segmentation::Transmit => "transmit",
        Segmentation::Receive => "receive",
        Segmentation::NoSegmentation => "none",
    }
}

/// The segmentation a word stands for.
pub fn segmentation_from_str(word: &str) -> (segmentation: Segmentation)
    ensures
        segmentation == segmentation_named(word@),
{
    if is_text(word, "both") {
        Segmentation::Both
    } else if is_text(word, "transmit") {
        Segmentation::Transmit
    } else if is_text(word, "receive") {
        Segmentation::Receive
    } else {
        Segmentation::NoSegmentation
    }
}

/// Read octets in hexadecimal with colons between them.
pub fn parse_hex_bytes(hex: &str) -> (octets: Option<Vec<u8>>)
    ensures
        match octets {
            Some(octets) => hex_octets(hex@) == Some(octets@),
            None => hex_octets(hex@) is None,
        },
{
    if is_text(hex, "0") {
        let none: Vec<u8> = Vec::new();
        proof {
            assert(none@ =~= Seq::<u8>::empty());
        }
        return Some(none);
    }
    let found = split_parts(hex, ':');
    let ghost shown = text::texts_view(found@);
    let mut octets: Vec<u8> = Vec::new();
    let mut i: usize = 0;
    proof {
        assert(shown.take(0) =~= Seq::<Seq<char>>::empty());
        assert(octets@ =~= Seq::<u8>::empty());
    }
    while i < found.len()
        invariant
            i <= found.len(),
            shown == text::texts_view(found@),
            shown == text::parts(hex@, ':'),
            hex@ != "0"@,
            octets_of(shown.take(i as int)) == Some(octets@),
        decreases found.len() - i,
    {
        proof {
            let longer = shown.take(i + 1);
            assert(longer.drop_last() =~= shown.take(i as int));
            assert(longer.last() == found@[i as int]@);
        }
        match parse_number(found[i], 16, 255) {
            Some(octet) => {
                octets.push(octet as u8);
            },
            None => {
                proof {
                    lemma_no_octets(shown, i + 1);
                }
                return None;
            },
        }
        i += 1;
    }
    proof {
        assert(shown.take(shown.len() as int) =~= shown);
    }
    Some(octets)
}

proof fn lemma_no_octets(parts: Seq<Seq<char>>, count: int)
    requires
        0 <= count <= parts.len(),
        octets_of(parts.take(count)) is None,
    ensures
        octets_of(parts) is None,
    decreases parts.len(),
{
    if count == parts.len() {
        assert(parts.take(count) =~= parts);
    } else {
        assert(parts.drop_last().take(count) =~= parts.take(count));
        lemma_no_octets(parts.drop_last(), count);
    }
}

/// Octets in hexadecimal with colons between them.
pub fn format_hex_bytes(octets: &Vec<u8>) -> (hex: String)
    ensures
        hex@ == hex_text(octets@),
{
    if octets.len() == 0 {
        return "0".to_owned();
    }
    proof {
        reveal_strlit(":");
    }
    let mut hex = String::new();
    append_hex_octet(&mut hex, octets[0]);
    let mut i: usize = 1;
    proof {
        assert(octets@.take(1).len() == 1);
        assert(hex@ =~= hex_text(octets@.take(1)));
    }
    while i < octets.len()
        invariant
            1 <= i <= octets.len(),
            hex@ == hex_text(octets@.take(i as int)),
            ":"@ == seq![':'],
        decreases octets.len() - i,
    {
        proof {
            let longer = octets@.take(i + 1);
            assert(longer.drop_last() =~= octets@.take(i as int));
            assert(longer.last() == octets@[i as int]);
            assert(hex@ + ":"@ =~= hex@.push(':'));
        }
        hex.append(":");
        append_hex_octet(&mut hex, octets[i]);
        i += 1;
    }
    proof {
        assert(octets@.take(octets@.len() as int) =~= octets@);
    }
    hex
}

/// Read one line.
pub fn parse_line(line: &str) -> (found: Option<CachedLine>)
    ensures
        match found {
            Some(found) => meaning(line@) == Some(found@),
            None => meaning(line@) is None,
        },
{
    let fields = split_words(line);
    let ghost shown = text::texts_view(fields@);
    if fields.len() < 5 {
        return None;
    }
    proof {
        assert(shown.len() == fields@.len());
        assert(shown[0] == fields@[0]@);
        assert(shown[1] == fields@[1]@);
        assert(shown[2] == fields@[2]@);
        assert(shown[3] == fields@[3]@);
        assert(shown[4] == fields@[4]@);
        text::law_words_are_words(line@, 0);
    }
    if fields[0].get_char(0) == ';' {
        return None;
    }
    let device_id = match parse_number(fields[0], 10, u32::MAX) {
        Some(device_id) => device_id,
        None => {
            return None;
        },
    };
    let network = match parse_number(fields[2], 10, 0xffff) {
        Some(network) => network as u16,
        None => {
            return None;
        },
    };
    let max_apdu = match parse_number(fields[4], 10, u32::MAX) {
        Some(max_apdu) => max_apdu,
        None => {
            return None;
        },
    };
    let segmentation = if fields.len() > 5 {
        proof {
            assert(shown[5] == fields@[5]@);
        }
        segmentation_from_str(fields[5])
    } else {
        Segmentation::NoSegmentation
    };
    let route = match parse_hex_bytes(fields[3]) {
        Some(address) => if network != 0 {
            Some(NetworkAddress::new(network, address))
        } else {
            None
        },
        None => None,
    };
    let found = CachedLine {
        device_id,
        address: fields[1].to_owned(),
        route,
        max_apdu,
        segmentation,
    };
    Some(found)
}

/// Write one device as a line, its address being written so.
pub fn format_line(device: &CachedDevice, address: &str) -> (line: String)
    ensures
        line@ == line_text(line_for(*device, address@)),
{
    proof {
        reveal_strlit(" ");
        assert(" "@ =~= seq![' ']);
    }
    let ghost stated = line_for(*device, address@);
    let ghost fields = fields_of(stated);
    let (network, station) = match &device.target.route {
        Some(route) => (route.network, format_hex_bytes(&route.address)),
        None => (0, "0".to_owned()),
    };
    let network_text = decimal_text(network as u32);
    let max_apdu_text = decimal_text(device.max_apdu);
    let mut line = decimal_text(device.device_id);
    line.append(" ");
    line.append(address);
    line.append(" ");
    line.append(network_text.as_str());
    line.append(" ");
    line.append(station.as_str());
    line.append(" ");
    line.append(max_apdu_text.as_str());
    line.append(" ");
    line.append(segmentation_to_str(device.segmentation));
    proof {
        reveal_with_fuel(spaced, 6);
        assert(fields.drop_last().len() == 5);
        let five = fields.drop_last();
        let four = five.drop_last();
        let three = four.drop_last();
        let two = three.drop_last();
        assert(spaced(two.drop_last()) == fields[0]);
        assert(spaced(two) =~= fields[0] + " "@ + fields[1]);
        assert(spaced(three) =~= fields[0] + " "@ + fields[1] + " "@ + fields[2]);
        assert(spaced(four) =~= spaced(three) + " "@ + fields[3]);
        assert(spaced(five) =~= spaced(four) + " "@ + fields[4]);
        assert(spaced(fields) =~= spaced(five) + " "@ + fields[5]);
    }
    line
}

/// Read every entry of a cache.
///
/// A malformed line is skipped rather than failing the whole load: a hand-edited or
/// half-written cache shouldn't block startup.
pub fn parse_cache(contents: &str) -> (found: Vec<CachedLine>)
    ensures
        found@.map_values(|line: CachedLine| line@) == meanings(
            text::parts(contents@, '\n'),
        ),
{
    let lines = split_parts(contents, '\n');
    let ghost shown = text::texts_view(lines@);
    let ghost view = |line: CachedLine| line@;
    let mut found: Vec<CachedLine> = Vec::new();
    let mut i: usize = 0;
    proof {
        assert(shown.take(0) =~= Seq::<Seq<char>>::empty());
        assert(found@.map_values(view) =~= Seq::<LineView>::empty());
    }
    while i < lines.len()
        invariant
            i <= lines.len(),
            shown == text::texts_view(lines@),
            view == (|line: CachedLine| line@),
            found@.map_values(view) == meanings(shown.take(i as int)),
        decreases lines.len() - i,
    {
        let ghost earlier = found@;
        proof {
            let longer = shown.take(i + 1);
            assert(longer.drop_last() =~= shown.take(i as int));
            assert(longer.last() == lines@[i as int]@);
        }
        match parse_line(lines[i]) {
            Some(line) => {
                found.push(line);
                proof {
                    assert(found@.map_values(view) =~= earlier.map_values(view).push(line@));
                }
            },
            None => {},
        }
        i += 1;
    }
    proof {
        assert(shown.take(shown.len() as int) =~= shown);
    }
    found
}

/// What devices' lines say, their addresses being written so.
pub open spec fn lines_for(devices: Seq<CachedDevice>, addresses: Seq<String>) -> Seq<LineView> {
    Seq::new(devices.len(), |i: int| line_for(devices[i], addresses[i]@))
}

/// Write devices, one line each, their addresses being written so.
pub fn format_cache(devices: &Vec<CachedDevice>, addresses: &Vec<String>) -> (contents: String)
    requires
        devices@.len() == addresses@.len(),
    ensures
        contents@ == file_text(lines_for(devices@, addresses@)),
{
    proof {
        reveal_strlit("\n");
        assert("\n"@ =~= seq!['\n']);
    }
    let ghost lines = lines_for(devices@, addresses@);
    let mut contents = String::new();
    let mut i: usize = 0;
    proof {
        assert(lines.take(0).len() == 0);
    }
    while i < devices.len()
        invariant
            i <= devices.len(),
            devices@.len() == addresses@.len(),
            lines == lines_for(devices@, addresses@),
            contents@ == file_text(lines.take(i as int)),
            "\n"@ == seq!['\n'],
        decreases devices.len() - i,
    {
        let ghost before = contents@;
        let line = format_line(&devices[i], addresses[i].as_str());
        contents.append(line.as_str());
        contents.append("\n");
        proof {
            let longer = lines.take(i + 1);
            assert(longer.drop_last() =~= lines.take(i as int));
            assert(longer.last() == lines[i as int]);
            assert(contents@ =~= (before + line@).push('\n'));
        }
        i += 1;
    }
    proof {
        assert(lines.take(lines.len() as int) =~= lines);
    }
    contents
}

} // verus!
