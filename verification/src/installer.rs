//! What the installer asks of the program: firewall rules, and the end of an older product.
use crate::text;
use vstd::prelude::*;

verus! {

/// The argument that makes the program a helper of the installer.
pub const HELPER_SWITCH: &'static str = "--nearweave-installer-helper";

pub const UNINSTALL_ROOT: &'static str = "Software\\Microsoft\\Windows\\CurrentVersion\\Uninstall";

pub const RUN_KEY: &'static str = "Software\\Microsoft\\Windows\\CurrentVersion\\Run";

pub const PUBLISHER: &'static str = "railgun20001";

pub const CURRENT_PRODUCT_NAME: &'static str = "NearWeave";

pub const CURRENT_BINARY_NAME: &'static str = "nearweave.exe";

pub const UDP_RULE_NAME: &'static str = "NearWeave LAN Discovery (UDP 37991)";

pub const TCP_RULE_NAME: &'static str = "NearWeave LAN Transfer (Dynamic TCP)";

/// The number of times that the end of an uninstallation is looked for.
pub const UNINSTALL_CHECKS: u32 = 20;

/// TCP and UDP by the numbers of their protocols.
pub const PROTOCOL_TCP: i32 = 6;

pub const PROTOCOL_UDP: i32 = 17;

/// All network profiles of the firewall.
pub const ALL_PROFILES: i32 = 0x7fff_ffff;

/// What is known before an installation about an older product.
#[derive(Clone, Copy, Debug, PartialEq, Eq, Structural)]
pub struct MigrationState {
    pub found: bool,
    pub restore_autostart: bool,
}

/// A firewall rule that the program needs.
#[derive(Clone, Copy, Debug)]
pub struct FirewallRuleSpec {
    pub name: &'static str,
    pub description: &'static str,
    pub protocol: i32,
    pub local_ports: &'static str,
}

/// What the firewall says of a rule. What could not be read is left out.
#[derive(Debug)]
pub struct RuleFacts {
    /// The program, as a normalized path.
    pub application: Option<String>,
    pub protocol: Option<i32>,
    pub local_ports: Option<String>,
    pub remote_addresses: Option<String>,
    pub inbound: Option<bool>,
    pub profiles: Option<i32>,
    pub edge_traversal: Option<bool>,
    pub allows: Option<bool>,
    pub enabled: Option<bool>,
}

/// What the installer asks for.
#[derive(Debug)]
pub enum HelperAction {
    MigratePre,
    MigratePost,
    FirewallAdd,
    FirewallRemove,
    FirewallPresent,
}

/// How the program is to run.
#[derive(Debug)]
pub enum HelperRun {
    /// As the application.
    Application,
    /// As a helper that can do nothing with its arguments.
    Refused(String),
    /// As a helper that is to do this.
    Helper(HelperAction),
}

/// Changes to the firewall: first the rules with these names go, then these come.
#[derive(Debug)]
pub struct FirewallPlan {
    pub remove: Vec<String>,
    pub add: Vec<FirewallRuleSpec>,
}

/// What is known of the entry of an older product.
#[derive(Clone, Copy, Debug, PartialEq, Eq, Structural)]
pub enum LegacySearch {
    /// There is none.
    Absent,
    /// There is one, which is to be looked at.
    Found,
}

/// What can be seen of an older product. All paths are in normal form.
#[derive(Debug)]
pub struct LegacyFacts {
    /// The number of its entries in the registry.
    pub candidates: usize,
    pub program_exists: bool,
    pub uninstaller_exists: bool,
    pub publisher: Result<String, String>,
    pub version: Result<String, String>,
    pub location: Result<String, String>,
    pub command: Result<String, String>,
    /// The program in the command.
    pub uninstaller: Result<String, String>,
    pub running: Result<bool, String>,
    /// The program that starts with the system under its name.
    pub autostart: Option<String>,
    pub expected_install: String,
    pub expected_program: String,
    pub expected_uninstaller: String,
}

/// How a program with administrator rights has ended.
#[derive(Clone, Copy, Debug, PartialEq, Eq, Structural)]
pub enum Elevation {
    NotStarted,
    NoHandle,
    WaitFailed,
    Exited(u32),
}

/// The first half of a pair of 16-bit units.
pub open spec fn is_high_half(unit: u16) -> bool {
    0xd800 <= unit < 0xdc00
}

/// The second half of a pair of 16-bit units.
pub open spec fn is_low_half(unit: u16) -> bool {
    0xdc00 <= unit < 0xe000
}

/// The character that two halves make.
pub open spec fn joined_halves(high: u16, low: u16) -> char {
    (0x1_0000 + (high - 0xd800) * 0x400 + (low - 0xdc00)) as char
}

/// The text that 16-bit units stand for. A half without its other half stands for the replacement
/// character.
pub open spec fn decoded(units: Seq<u16>) -> Seq<char>
    decreases units.len(),
{
    if units.len() == 0 {
        Seq::empty()
    } else if units.len() >= 2 && is_high_half(units[0]) && is_low_half(units[1]) {
        seq![joined_halves(units[0], units[1])] + decoded(units.skip(2))
    } else if is_high_half(units[0]) || is_low_half(units[0]) {
        seq!['\u{fffd}'] + decoded(units.skip(1))
    } else {
        seq![units[0] as char] + decoded(units.skip(1))
    }
}

/// No half stands without its other half.
pub open spec fn is_well_formed(units: Seq<u16>) -> bool
    decreases units.len(),
{
    if units.len() == 0 {
        true
    } else if units.len() >= 2 && is_high_half(units[0]) && is_low_half(units[1]) {
        is_well_formed(units.skip(2))
    } else {
        !is_high_half(units[0]) && !is_low_half(units[0]) && is_well_formed(units.skip(1))
    }
}

/// `char::from_u32`: the character with this number, nothing where the number is none of a
/// character's.
pub assume_specification[ char::from_u32 ](code: u32) -> (r: Option<char>)
    ensures
        r is Some <==> code < 0xd800 || 0xe000 <= code <= 0x10_ffff,
        r is Some ==> r.unwrap() == code as char,
;

fn char_of_unit(unit: u16) -> (r: char)
    requires
        !is_high_half(unit),
        !is_low_half(unit),
    ensures
        r == unit as char,
{
    match char::from_u32(unit as u32) {
        Some(c) => c,
        None => '\u{fffd}',
    }
}

fn char_of_halves(high: u16, low: u16) -> (r: char)
    requires
        is_high_half(high),
        is_low_half(low),
    ensures
        r == joined_halves(high, low),
{
    let code: u32 = 0x1_0000 + (high as u32 - 0xd800) * 0x400 + (low as u32 - 0xdc00);
    match char::from_u32(code) {
        Some(c) => c,
        None => '\u{fffd}',
    }
}

/// The text that the units before `end` stand for.
fn decode_units(units: &[u16], end: usize) -> (r: String)
    requires
        end <= units@.len(),
    ensures
        r@ == decoded(units@.take(end as int)),
{
    let ghost all = units@.take(end as int);
    let mut out = String::new();
    let mut i: usize = 0;
    proof {
        assert(all.skip(0) =~= all);
        assert(out@ + decoded(all) =~= decoded(all));
    }
    while i < end
        invariant
            i <= end <= units@.len(),
            all == units@.take(end as int),
            out@ + decoded(all.skip(i as int)) == decoded(all),
        decreases end - i,
    {
        let unit: u16 = units[i];
        let ghost rest = all.skip(i as int);
        let ghost before = out@;
        proof {
            assert(rest[0] == unit);
            assert(rest.skip(1) =~= all.skip(i + 1));
        }
        let is_high = 0xd800 <= unit && unit < 0xdc00;
        if is_high && i + 1 < end && 0xdc00 <= units[i + 1] && units[i + 1] < 0xe000 {
            let c = char_of_halves(unit, units[i + 1]);
            out.push(c);
            proof {
                assert(rest.skip(2) =~= all.skip(i + 2));
                assert(before + decoded(rest) =~= before.push(c) + decoded(all.skip(i + 2)));
            }
            i = i + 2;
        } else if 0xd800 <= unit && unit < 0xe000 {
            out.push('\u{fffd}');
            proof {
                assert(before + decoded(rest) =~= before.push('\u{fffd}') + decoded(
                    all.skip(i + 1),
                ));
            }
            i = i + 1;
        } else {
            let c = char_of_unit(unit);
            out.push(c);
            proof {
                assert(before + decoded(rest) =~= before.push(c) + decoded(all.skip(i + 1)));
            }
            i = i + 1;
        }
    }
    proof {
        assert(all.skip(i as int) =~= Seq::<u16>::empty());
        assert(out@ + Seq::<char>::empty() =~= out@);
    }
    out
}

/// The units before the first that is zero.
pub open spec fn before_zero(units: Seq<u16>) -> Seq<u16>
    decreases units.len(),
{
    if units.len() == 0 || units[0] == 0 {
        Seq::empty()
    } else {
        seq![units[0]] + before_zero(units.skip(1))
    }
}

proof fn lemma_before_zero(units: Seq<u16>, n: int)
    requires
        0 <= n <= units.len(),
        forall|i: int| 0 <= i < n ==> units[i] != 0,
        n < units.len() ==> units[n] == 0,
    ensures
        before_zero(units) == units.take(n),
    decreases n,
{
    if n > 0 {
        lemma_before_zero(units.skip(1), n - 1);
        assert(seq![units[0]] + units.skip(1).take(n - 1) =~= units.take(n));
    } else {
        assert(units.take(0) =~= Seq::<u16>::empty());
    }
}

/// The text in a buffer of 16-bit units that ends with a zero, or with the buffer.
pub fn string_from_wide_nul(value: &[u16]) -> (r: String)
    ensures
        r@ == decoded(before_zero(value@)),
{
    let mut length: usize = 0;
    while length < value.len() && value[length] != 0
        invariant
            length <= value@.len(),
            forall|i: int| 0 <= i < length ==> value@[i] != 0,
        decreases value@.len() - length,
    {
        length = length + 1;
    }
    proof {
        lemma_before_zero(value@, length as int);
    }
    decode_units(value, length)
}

/// The 16-bit units of a character.
pub open spec fn coded_char(c: char) -> Seq<u16> {
    let n = c as u32;
    if n < 0x1_0000 {
        seq![n as u16]
    } else {
        seq![
            (0xd800 + (n - 0x1_0000) / 0x400) as u16,
            (0xdc00 + (n - 0x1_0000) % 0x400) as u16,
        ]
    }
}

/// The 16-bit units of a text.
pub open spec fn coded(s: Seq<char>) -> Seq<u16>
    decreases s.len(),
{
    if s.len() == 0 {
        Seq::empty()
    } else {
        coded(s.drop_last()) + coded_char(s.last())
    }
}

/// The 16-bit units of a text, with a zero at their end.
pub fn wide_null(value: &str) -> (r: Vec<u16>)
    ensures
        r@ == coded(value@).push(0),
{
    let chars = text::chars_of(value);
    let mut out: Vec<u16> = Vec::new();
    let mut i: usize = 0;
    proof {
        assert(value@.take(0) =~= Seq::<char>::empty());
    }
    while i < chars.len()
        invariant
            i <= chars@.len(),
            chars@ == value@,
            out@ == coded(value@.take(i as int)),
        decreases chars@.len() - i,
    {
        let c = chars[i];
        let n: u32 = c as u32;
        let ghost before = out@;
        proof {
            assert(value@.take(i + 1).drop_last() =~= value@.take(i as int));
            assert(value@.take(i + 1).last() == c);
        }
        if n < 0x1_0000 {
            out.push(n as u16);
        } else {
            proof {
                vstd::utf8::char_is_scalar(c);
            }
            out.push((0xd800 + (n - 0x1_0000) / 0x400) as u16);
            out.push((0xdc00 + (n - 0x1_0000) % 0x400) as u16);
        }
        proof {
            assert(out@ =~= before + coded_char(c));
        }
        i = i + 1;
    }
    proof {
        assert(value@.take(i as int) =~= value@);
    }
    out.push(0);
    out
}

proof fn lemma_coded_char(c: char)
    ensures
        coded_char(c).len() == 1 ==> {
            &&& !is_high_half(coded_char(c)[0])
            &&& !is_low_half(coded_char(c)[0])
            &&& coded_char(c)[0] as char == c
        },
        coded_char(c).len() == 2 ==> {
            &&& is_high_half(coded_char(c)[0])
            &&& is_low_half(coded_char(c)[1])
            &&& joined_halves(coded_char(c)[0], coded_char(c)[1]) == c
        },
        coded_char(c).len() == 1 || coded_char(c).len() == 2,
        c != '\0' ==> (forall|i: int| 0 <= i < coded_char(c).len() ==> coded_char(c)[i] != 0),
{
    vstd::utf8::char_is_scalar(c);
    let n = c as u32;
    vstd::utf8::char_u32_cast(c, n);
    if n == 0 {
        assert(n as char == '\0');
    }
    if n >= 0x1_0000 {
        let units = coded_char(c);
        assert(0x1_0000 + (units[0] - 0xd800) * 0x400 + (units[1] - 0xdc00) == n);
    }
}

proof fn lemma_coded_is_decoded(s: Seq<char>, rest: Seq<u16>)
    ensures
        decoded(coded(s) + rest) == s + decoded(rest),
    decreases s.len(),
{
    if s.len() == 0 {
        assert(coded(s) + rest =~= rest);
        assert(s + decoded(rest) =~= decoded(rest));
    } else {
        let c = s.last();
        let units = coded_char(c);
        let tail = units + rest;
        assert(coded(s) + rest =~= coded(s.drop_last()) + tail);
        lemma_coded_is_decoded(s.drop_last(), tail);
        lemma_coded_char(c);
        if units.len() == 1 {
            assert(tail[0] == units[0]);
            assert(tail.skip(1) =~= rest);
        } else {
            assert(tail[0] == units[0] && tail[1] == units[1]);
            assert(tail.skip(2) =~= rest);
        }
        assert(decoded(tail) =~= seq![c] + decoded(rest));
        assert(s.drop_last() + (seq![c] + decoded(rest)) =~= s + decoded(rest));
    }
}

proof fn lemma_coded_has_no_zero(s: Seq<char>)
    requires
        forall|i: int| 0 <= i < s.len() ==> s[i] != '\0',
    ensures
        forall|i: int| 0 <= i < coded(s).len() ==> coded(s)[i] != 0,
    decreases s.len(),
{
    if s.len() > 0 {
        let front = coded(s.drop_last());
        lemma_coded_has_no_zero(s.drop_last());
        lemma_coded_char(s.last());
        assert(s[s.len() - 1] != '\0');
        assert forall|i: int| 0 <= i < coded(s).len() implies coded(s)[i] != 0 by {
            if i < front.len() {
                assert(coded(s)[i] == front[i]);
            } else {
                assert(coded(s)[i] == coded_char(s.last())[i - front.len()]);
            }
        }
    }
}

/// A text without a zero that is coded to units and ended by a zero reads back as that text,
/// whatever stands behind the zero.
pub proof fn law_coded_text_reads_back(s: Seq<char>, behind: Seq<u16>)
    requires
        forall|i: int| 0 <= i < s.len() ==> s[i] != '\0',
    ensures
        decoded(before_zero(coded(s).push(0) + behind)) == s,
{
    lemma_coded_has_no_zero(s);
    let units = coded(s).push(0) + behind;
    let n = coded(s).len() as int;
    assert forall|i: int| 0 <= i < n implies units[i] != 0 by {
        assert(units[i] == coded(s)[i]);
    }
    lemma_before_zero(units, n);
    assert(units.take(n) =~= coded(s) + Seq::<u16>::empty());
    lemma_coded_is_decoded(s, Seq::empty());
    assert(s + Seq::<char>::empty() =~= s);
}

/// All that stands behind the first zero is ignored, and units without a zero are read whole.
pub proof fn law_reading_ends_at_zero(units: Seq<u16>, behind: Seq<u16>)
    requires
        forall|i: int| 0 <= i < units.len() ==> units[i] != 0,
    ensures
        decoded(before_zero(units.push(0) + behind)) == decoded(units),
        decoded(before_zero(units)) == decoded(units),
{
    let n = units.len() as int;
    let all = units.push(0) + behind;
    assert forall|i: int| 0 <= i < n implies all[i] != 0 by {
        assert(all[i] == units[i]);
    }
    lemma_before_zero(all, n);
    lemma_before_zero(units, n);
    assert(all.take(n) =~= units);
    assert(units.take(n) =~= units);
}

/// The text that 16-bit units stand for, none of which is a half without its other half.
pub fn legacy_string(value: &[u16]) -> (r: String)
    requires
        is_well_formed(value@),
    ensures
        r@ == decoded(value@),
{
    proof {
        assert(value@.take(value@.len() as int) =~= value@);
    }
    decode_units(value, value.len())
}

/// The name of the older product.
pub fn legacy_product_name() -> (r: String)
    ensures
        r@ == decoded(seq![34013u16, 26725u16]),
        r@.len() == 2,
{
    let units: [u16; 2] = [34013, 26725];
    proof {
        reveal_with_fuel(is_well_formed, 3);
        reveal_with_fuel(decoded, 3);
        assert(units@ =~= seq![34013u16, 26725u16]);
    }
    legacy_string(&units)
}

/// The file name of the older product's program.
pub fn legacy_binary_name() -> (r: String)
    ensures
        r@ == "bluetooth-share.exe"@,
{
    String::from_str("bluetooth-share.exe")
}

/// The names of the rules that the program and its older versions have made.
pub open spec fn rule_names() -> Seq<Seq<char>> {
    seq![
        UDP_RULE_NAME@,
        TCP_RULE_NAME@,
        "蓝桥 局域网发现 (UDP 37991)"@,
        "蓝桥 局域网传输 (动态 TCP)"@,
        "Bluebridge LAN Discovery (UDP 37991)"@,
        "Bluebridge LAN Transfer (Dynamic TCP)"@,
    ]
}

/// The names of the rules that the program and its older versions have made.
pub fn current_and_legacy_rule_names() -> (r: Vec<String>)
    ensures
        r@.map_values(|s: String| s@) == rule_names(),
        r@.len() == 6,
{
    let mut names: Vec<String> = Vec::new();
    names.push(String::from_str(UDP_RULE_NAME));
    names.push(String::from_str(TCP_RULE_NAME));
    names.push(String::from_str("蓝桥 局域网发现 (UDP 37991)"));
    names.push(String::from_str("蓝桥 局域网传输 (动态 TCP)"));
    names.push(String::from_str("Bluebridge LAN Discovery (UDP 37991)"));
    names.push(String::from_str("Bluebridge LAN Transfer (Dynamic TCP)"));
    proof {
        assert(names@.map_values(|s: String| s@) =~= rule_names());
    }
    names
}

/// The text has the form of a version: three numbers between points.
pub open spec fn is_version(s: Seq<char>) -> bool {
    let fields = text::split_of(s, '.');
    fields.len() == 3 && text::is_u32(fields[0]) && text::is_u32(fields[1]) && text::is_u32(
        fields[2],
    )
}

/// A number of a version.
pub open spec fn version_field(s: Seq<char>, i: int) -> nat {
    text::digits_value(text::unsigned_part(text::split_of(s, '.')[i]))
}

/// The three numbers of a version.
pub fn parse_version(value: &str) -> (r: Option<(u32, u32, u32)>)
    ensures
        r is Some <==> is_version(value@),
        r matches Some((major, minor, patch)) ==> major == version_field(value@, 0) && minor
            == version_field(value@, 1) && patch == version_field(value@, 2),
{
    let fields = text::split(value, '.');
    let ghost view = |t: String| t@;
    proof {
        assert(fields@.map_values(view) == text::split_of(value@, '.'));
        assert(fields@.len() == text::split_of(value@, '.').len());
        assert forall|i: int| 0 <= i < fields@.len() implies text::split_of(value@, '.')[i] == (
        #[trigger] fields@[i])@ by {
            assert(fields@.map_values(view)[i] == fields@[i]@);
        }
    }
    if fields.len() != 3 {
        return None;
    }
    match (
        text::parse_u32(&fields[0]),
        text::parse_u32(&fields[1]),
        text::parse_u32(&fields[2]),
    ) {
        (Some(major), Some(minor), Some(patch)) => Some((major, minor, patch)),
        _ => None,
    }
}

/// The version is from 0.1.0 up to 0.3.1.
pub open spec fn is_supported(major: nat, minor: nat, patch: nat) -> bool {
    major == 0 && (minor == 1 || minor == 2 || (minor == 3 && patch <= 1))
}

/// The text is a version of the older product that can be followed.
pub open spec fn is_supported_version(s: Seq<char>) -> bool {
    is_version(s) && is_supported(version_field(s, 0), version_field(s, 1), version_field(s, 2))
}

/// Whether an older product of this version can be followed.
pub fn legacy_version_is_supported(value: &str) -> (r: bool)
    ensures
        r == is_supported_version(value@),
{
    match parse_version(value) {
        Some((major, minor, patch)) => major == 0 && (minor == 1 || minor == 2 || (minor == 3
            && patch <= 1)),
        None => false,
    }
}

/// The characters before the first that is of a kind, which are all where none is.
pub open spec fn head_of(s: Seq<char>, stops: spec_fn(char) -> bool) -> Seq<char>
    decreases s.len(),
{
    if s.len() == 0 || stops(s[0]) {
        Seq::empty()
    } else {
        seq![s[0]] + head_of(s.skip(1), stops)
    }
}

proof fn lemma_head(s: Seq<char>, stops: spec_fn(char) -> bool, n: int)
    requires
        0 <= n <= s.len(),
        forall|i: int| 0 <= i < n ==> !stops(#[trigger] s[i]),
        n < s.len() ==> stops(s[n]),
    ensures
        head_of(s, stops) == s.take(n),
    decreases n,
{
    if n > 0 {
        assert forall|i: int| 0 <= i < n - 1 implies !stops(#[trigger] s.skip(1)[i]) by {
            assert(s.skip(1)[i] == s[i + 1]);
        }
        if n < s.len() {
            assert(s.skip(1)[n - 1] == s[n]);
        }
        lemma_head(s.skip(1), stops, n - 1);
        assert(seq![s[0]] + s.skip(1).take(n - 1) =~= s.take(n));
    } else {
        assert(s.take(0) =~= Seq::<char>::empty());
    }
}

/// The program in a command: what stands between quotation marks at its front, or else its first
/// word.
pub open spec fn program_of(command: Seq<char>) -> Option<Seq<char>> {
    let c = text::trimmed(command);
    if c.len() > 0 && c[0] == '"' {
        let rest = c.skip(1);
        if rest.contains('"') {
            Some(head_of(rest, |x: char| x == '"'))
        } else {
            None
        }
    } else {
        let word = head_of(c, |x: char| text::is_white(x));
        if word.len() > 0 {
            Some(word)
        } else {
            None
        }
    }
}

/// The path of the program in a command.
pub fn command_path(command: &str) -> (r: Option<String>)
    ensures
        match r {
            Some(path) => program_of(command@) == Some(path@),
            None => program_of(command@) is None,
        },
{
    let trimmed = text::trim(command);
    let chars = text::chars_of(&trimmed);
    let ghost c = text::trimmed(command@);
    if chars.len() > 0 && chars[0] == '"' {
        let mut end: usize = 1;
        while end < chars.len() && chars[end] != '"'
            invariant
                1 <= end <= chars@.len(),
                forall|k: int| 1 <= k < end ==> chars@[k] != '"',
            decreases chars@.len() - end,
        {
            end = end + 1;
        }
        let ghost rest = c.skip(1);
        if end == chars.len() {
            proof {
                assert forall|k: int| 0 <= k < rest.len() implies rest[k] != '"' by {
                    assert(rest[k] == chars@[k + 1]);
                }
                assert(!rest.contains('"'));
            }
            return None;
        }
        proof {
            let stops = |x: char| x == '"';
            assert forall|k: int| 0 <= k < end - 1 implies !stops(#[trigger] rest[k]) by {
                assert(rest[k] == chars@[k + 1]);
            }
            assert(rest[end - 1] == chars@[end as int]);
            assert(rest.contains('"'));
            lemma_head(rest, stops, end - 1);
            assert(rest.take(end - 1) =~= chars@.subrange(1, end as int));
        }
        return Some(text::range_text(&chars, 1, end));
    }
    let mut end: usize = 0;
    let ghost stops = |x: char| text::is_white(x);
    while end < chars.len() && !text::is_whitespace(chars[end])
        invariant
            end <= chars@.len(),
            stops == (|x: char| text::is_white(x)),
            forall|k: int| 0 <= k < end ==> !stops(#[trigger] chars@[k]),
        decreases chars@.len() - end,
    {
        end = end + 1;
    }
    proof {
        lemma_head(c, stops, end as int);
        assert(c.take(end as int) =~= chars@.subrange(0, end as int));
    }
    if end == 0 {
        return None;
    }
    Some(text::range_text(&chars, 0, end))
}

/// What is said of an error in the registry.
pub fn registry_error(error: &str) -> (r: String)
    ensures
        r@ == "Windows 注册表操作失败："@ + error@,
{
    text::joined("Windows 注册表操作失败：", error)
}

/// A separator in a path.
pub open spec fn is_separator(c: char) -> bool {
    c == '\\' || c == '/'
}

/// The path is nothing but the letter of a drive and a colon.
pub open spec fn is_bare_drive(path: Seq<char>) -> bool {
    path.len() == 2 && path[1] == ':' && ('a' <= path[0] <= 'z' || 'A' <= path[0] <= 'Z')
}

/// The path of a file in a directory.
pub open spec fn path_in(directory: Seq<char>, name: Seq<char>) -> Seq<char> {
    if directory.len() == 0 || is_separator(directory.last()) || is_bare_drive(directory) {
        directory + name
    } else {
        directory + "\\"@ + name
    }
}

/// The path of a file in a directory.
pub fn join_path(directory: &str, name: &str) -> (r: String)
    ensures
        r@ == path_in(directory@, name@),
{
    let chars = text::chars_of(directory);
    let n: usize = chars.len();
    let bare = n == 0 || chars[n - 1] == '\\' || chars[n - 1] == '/' || (n == 2 && chars[1] == ':'
        && (('a' <= chars[0] && chars[0] <= 'z') || ('A' <= chars[0] && chars[0] <= 'Z')));
    if bare {
        text::joined(directory, name)
    } else {
        text::joined3(directory, "\\", name)
    }
}

/// The value of a variable of the environment, which has to be there.
pub fn required_environment_path(name: &str, value: Option<String>) -> (r: Result<String, String>)
    ensures
        match value {
            Some(path) => r == Ok::<String, String>(path),
            None => r matches Err(e) && e@ == "缺少 Windows 环境变量 "@ + name@,
        },
{
    match value {
        Some(path) => Ok(path),
        None => Err(text::joined("缺少 Windows 环境变量 ", name)),
    }
}

/// Where the program is installed.
pub open spec fn installed_at(local_app_data: Seq<char>) -> Seq<char> {
    path_in(path_in(local_app_data, CURRENT_PRODUCT_NAME@), CURRENT_BINARY_NAME@)
}

/// Where the program is installed, below the directory of the user's application data.
pub fn expected_installed_program(local_app_data: Option<String>) -> (r: Result<String, String>)
    ensures
        match local_app_data {
            Some(directory) => r matches Ok(path) && path@ == installed_at(directory@),
            None => r matches Err(e) && e@ == "缺少 Windows 环境变量 LOCALAPPDATA"@,
        },
{
    match local_app_data {
        Some(directory) => {
            let product = join_path(&directory, CURRENT_PRODUCT_NAME);
            Ok(join_path(&product, CURRENT_BINARY_NAME))
        },
        None => Err(String::from_str("缺少 Windows 环境变量 LOCALAPPDATA")),
    }
}

/// The name of the file in which the helper remembers what it has found.
pub const MIGRATION_FILE_NAME: &'static str = "nearweave-migration.json";

/// The file in which the helper remembers what it has found of an older product: always the same
/// one, in the directory of the user's application data.
pub fn migration_state_file(local_app_data: Option<String>) -> (r: Result<String, String>)
    ensures
        match local_app_data {
            Some(directory) => r matches Ok(path) && path@ == path_in(
                directory@,
                MIGRATION_FILE_NAME@,
            ),
            None => r matches Err(e) && e@ == "缺少 Windows 环境变量 LOCALAPPDATA"@,
        },
{
    match local_app_data {
        Some(directory) => Ok(join_path(&directory, MIGRATION_FILE_NAME)),
        None => Err(String::from_str("缺少 Windows 环境变量 LOCALAPPDATA")),
    }
}

/// The path without the separators at its end.
pub open spec fn without_end(path: Seq<char>) -> Seq<char>
    decreases path.len(),
{
    if path.len() > 0 && is_separator(path.last()) {
        without_end(path.drop_last())
    } else {
        path
    }
}

/// The path without the separators at its end.
pub fn trim_separators(path: &str) -> (r: String)
    ensures
        r@ == without_end(path@),
{
    let chars = text::chars_of(path);
    let mut end: usize = chars.len();
    proof {
        assert(path@.take(end as int) =~= path@);
    }
    while end > 0 && (chars[end - 1] == '\\' || chars[end - 1] == '/')
        invariant
            end <= chars@.len(),
            chars@ == path@,
            without_end(path@.take(end as int)) == without_end(path@),
        decreases end,
    {
        proof {
            assert(path@.take(end as int).drop_last() =~= path@.take(end - 1));
            assert(path@.take(end as int).last() == chars@[end - 1]);
        }
        end = end - 1;
    }
    proof {
        assert(path@.subrange(0, end as int) =~= path@.take(end as int));
        if end > 0 {
            assert(path@.take(end as int).last() == chars@[end - 1]);
        }
    }
    text::range_text(&chars, 0, end)
}

/// Whether two paths are the same, once they are in normal form.
pub fn paths_equal(left: Result<String, String>, right: Result<String, String>) -> (r: Result<
    bool,
    String,
>)
    ensures
        match (left, right) {
            (Err(cause), _) => r == Err::<bool, String>(cause),
            (Ok(_), Err(cause)) => r == Err::<bool, String>(cause),
            (Ok(a), Ok(b)) => r == Ok::<bool, String>(text::same_ignoring_case(a@, b@)),
        },
{
    match (left, right) {
        (Err(cause), _) => Err(cause),
        (Ok(_), Err(cause)) => Err(cause),
        (Ok(a), Ok(b)) => Ok(text::equal_ignoring_case(&a, &b)),
    }
}

/// The rule that lets other devices be discovered.
pub open spec fn is_discovery_rule(rule: FirewallRuleSpec) -> bool {
    &&& rule.name@ == UDP_RULE_NAME@
    &&& rule.protocol == PROTOCOL_UDP
    &&& rule.local_ports@ == "37991"@
    &&& rule.description@ == "Allow NearWeave discovery from the local subnet and Windows hotspot"@
}

/// The rule that lets other devices connect.
pub open spec fn is_transfer_rule(rule: FirewallRuleSpec) -> bool {
    &&& rule.name@ == TCP_RULE_NAME@
    &&& rule.protocol == PROTOCOL_TCP
    &&& rule.local_ports@ == "*"@
    &&& rule.description@
        == "Allow NearWeave dynamic TCP transfer from the local subnet and Windows hotspot"@
}

/// The rules that the program needs.
pub fn firewall_rules() -> (r: Vec<FirewallRuleSpec>)
    ensures
        r@.len() == 2,
        is_discovery_rule(r@[0]),
        is_transfer_rule(r@[1]),
{
    let mut rules: Vec<FirewallRuleSpec> = Vec::new();
    rules.push(
        FirewallRuleSpec {
            name: UDP_RULE_NAME,
            description: "Allow NearWeave discovery from the local subnet and Windows hotspot",
            protocol: PROTOCOL_UDP,
            local_ports: "37991",
        },
    );
    rules.push(
        FirewallRuleSpec {
            name: TCP_RULE_NAME,
            description: "Allow NearWeave dynamic TCP transfer from the local subnet and Windows hotspot",
            protocol: PROTOCOL_TCP,
            local_ports: "*",
        },
    );
    rules
}

/// The addresses of the local subnet, in the notation of the firewall.
pub const LOCAL_SUBNET: &'static str = "LocalSubnet";

/// What a rule for this program says: it lets devices of the local subnet in, and no others, in all
/// networks and without edge traversal.
pub open spec fn is_made(rule: FirewallRuleSpec, program: Seq<char>, facts: RuleFacts) -> bool {
    &&& facts.application is Some && facts.application->0@ == program
    &&& facts.protocol == Some(rule.protocol)
    &&& facts.local_ports is Some && facts.local_ports->0@ == rule.local_ports@
    &&& facts.remote_addresses is Some && facts.remote_addresses->0@ == LOCAL_SUBNET@
    &&& facts.inbound == Some(true)
    &&& facts.profiles == Some(ALL_PROFILES)
    &&& facts.edge_traversal == Some(false)
    &&& facts.allows == Some(true)
    &&& facts.enabled == Some(true)
}

/// What a rule for this program is to say.
pub fn rule_to_make(rule: &FirewallRuleSpec, program: &str) -> (r: RuleFacts)
    ensures
        is_made(*rule, program@, r),
{
    RuleFacts {
        application: Some(String::from_str(program)),
        protocol: Some(rule.protocol),
        local_ports: Some(String::from_str(rule.local_ports)),
        remote_addresses: Some(String::from_str(LOCAL_SUBNET)),
        inbound: Some(true),
        profiles: Some(ALL_PROFILES),
        edge_traversal: Some(false),
        allows: Some(true),
        enabled: Some(true),
    }
}

/// The rule lets devices of the local subnet, and no others, reach this program.
pub open spec fn is_current(
    rule: RuleFacts,
    protocol: i32,
    local_ports: Seq<char>,
    program: Seq<char>,
) -> bool {
    &&& rule.application is Some && text::same_ignoring_case(rule.application->0@, program)
    &&& rule.protocol == Some(protocol)
    &&& rule.local_ports is Some && text::same_ignoring_case(rule.local_ports->0@, local_ports)
    &&& rule.remote_addresses is Some && text::same_ignoring_case(
        rule.remote_addresses->0@,
        LOCAL_SUBNET@,
    )
    &&& rule.inbound == Some(true)
    &&& rule.profiles == Some(ALL_PROFILES)
    &&& rule.edge_traversal == Some(false)
    &&& rule.allows == Some(true)
    &&& rule.enabled == Some(true)
}

fn says_text(value: &Option<String>, expected: &str) -> (r: bool)
    ensures
        r == (value is Some && text::same_ignoring_case(value->0@, expected@)),
{
    match value {
        Some(found) => text::equal_ignoring_case(found, expected),
        None => false,
    }
}

fn says_number(value: Option<i32>, expected: i32) -> (r: bool)
    ensures
        r == (value == Some(expected)),
{
    match value {
        Some(found) => found == expected,
        None => false,
    }
}

fn says(value: Option<bool>, expected: bool) -> (r: bool)
    ensures
        r == (value == Some(expected)),
{
    match value {
        Some(found) => found == expected,
        None => false,
    }
}

/// Whether a rule is there and says what it has to say.
pub fn firewall_rule_is_current(
    rule: &Option<RuleFacts>,
    spec_rule: &FirewallRuleSpec,
    program: &str,
) -> (r: bool)
    ensures
        r == (rule is Some && is_current(
            rule->0,
            spec_rule.protocol,
            spec_rule.local_ports@,
            program@,
        )),
{
    match rule {
        None => false,
        Some(facts) => says_text(&facts.application, program) && says_number(
            facts.protocol,
            spec_rule.protocol,
        ) && says_text(&facts.local_ports, spec_rule.local_ports) && says_text(
            &facts.remote_addresses,
            LOCAL_SUBNET,
        ) && says(facts.inbound, true) && says_number(facts.profiles, ALL_PROFILES) && says(
            facts.edge_traversal,
            false,
        ) && says(facts.allows, true) && says(facts.enabled, true),
    }
}

/// Both rules are there and say what they have to say.
pub open spec fn is_configured(
    program: Result<String, String>,
    rules: Result<(Option<RuleFacts>, Option<RuleFacts>), String>,
) -> bool {
    &&& program is Ok
    &&& rules is Ok
    &&& rules->Ok_0.0 is Some
    &&& is_current(rules->Ok_0.0->0, PROTOCOL_UDP, "37991"@, program->Ok_0@)
    &&& rules->Ok_0.1 is Some
    &&& is_current(rules->Ok_0.1->0, PROTOCOL_TCP, "*"@, program->Ok_0@)
}

/// Whether the firewall lets other devices reach the installed program, where it could be asked:
/// for the rule on discovery and the rule on transfers.
pub fn lan_firewall_is_configured(
    program: &Result<String, String>,
    rules: &Result<(Option<RuleFacts>, Option<RuleFacts>), String>,
) -> (r: bool)
    ensures
        r == is_configured(*program, *rules),
{
    match (program, rules) {
        (Ok(path), Ok((udp, tcp))) => {
            let needed = firewall_rules();
            firewall_rule_is_current(udp, &needed[0], path) && firewall_rule_is_current(
                tcp,
                &needed[1],
                path,
            )
        },
        _ => false,
    }
}

/// The changes to the firewall that are to be made: the rules of all versions go, and where they
/// are to be there, those of this one come. Rules are made only for the installed program.
pub fn configure_firewall(
    add_rules: bool,
    program: Result<String, String>,
    current: Result<String, String>,
    is_file: bool,
) -> (r: Result<FirewallPlan, String>)
    ensures
        match program {
            Err(cause) => r == Err::<FirewallPlan, String>(cause),
            Ok(path) => if !add_rules {
                r matches Ok(plan) && plan.remove@.map_values(|s: String| s@) == rule_names()
                    && plan.add@.len() == 0
            } else {
                match current {
                    Err(cause) => r == Err::<FirewallPlan, String>(cause),
                    Ok(running) => if text::same_ignoring_case(running@, path@) && is_file {
                        &&& r matches Ok(plan)
                        &&& plan.remove@.map_values(|s: String| s@) == rule_names()
                        &&& plan.add@.len() == 2
                        &&& is_discovery_rule(plan.add@[0])
                        &&& is_transfer_rule(plan.add@[1])
                    } else {
                        r matches Err(e) && e@ == "只能为已安装的 NearWeave 主程序配置防火墙"@
                    },
                }
            },
        },
{
    let path = match program {
        Ok(path) => path,
        Err(cause) => {
            return Err(cause);
        },
    };
    if !add_rules {
        return Ok(FirewallPlan { remove: current_and_legacy_rule_names(), add: Vec::new() });
    }
    match paths_equal(current, Ok(path)) {
        Err(cause) => Err(cause),
        Ok(same) => {
            if !same || !is_file {
                return Err(
                    String::from_str("只能为已安装的 NearWeave 主程序配置防火墙"),
                );
            }
            Ok(FirewallPlan { remove: current_and_legacy_rule_names(), add: firewall_rules() })
        },
    }
}

/// The rules that are made for a program let other devices reach it: a firewall that holds what
/// they are to say is taken as configured.
pub proof fn law_made_rules_are_accepted(
    discovery: FirewallRuleSpec,
    transfer: FirewallRuleSpec,
    program: String,
    discovery_facts: RuleFacts,
    transfer_facts: RuleFacts,
)
    requires
        is_discovery_rule(discovery),
        is_transfer_rule(transfer),
        is_made(discovery, program@, discovery_facts),
        is_made(transfer, program@, transfer_facts),
    ensures
        is_configured(Ok(program), Ok((Some(discovery_facts), Some(transfer_facts)))),
{
}

/// The names of the rules that go again where one of them could not be made.
pub fn rollback_names() -> (r: Vec<String>)
    ensures
        r@.map_values(|s: String| s@) == seq![UDP_RULE_NAME@, TCP_RULE_NAME@],
{
    let mut names: Vec<String> = Vec::new();
    names.push(String::from_str(UDP_RULE_NAME));
    names.push(String::from_str(TCP_RULE_NAME));
    proof {
        assert(names@.map_values(|s: String| s@) =~= seq![UDP_RULE_NAME@, TCP_RULE_NAME@]);
    }
    names
}

/// Administrator rights are needed, or not, or cannot be asked for.
pub open spec fn is_need(
    configured: bool,
    program: Result<String, String>,
    current: Result<String, String>,
    is_file: bool,
    r: Result<bool, String>,
) -> bool {
    if configured {
        r == Ok::<bool, String>(false)
    } else {
        match (program, current) {
            (Err(cause), _) => r == Err::<bool, String>(cause),
            (Ok(_), Err(cause)) => r == Err::<bool, String>(cause),
            (Ok(path), Ok(running)) => if text::same_ignoring_case(running@, path@) && is_file {
                r == Ok::<bool, String>(true)
            } else {
                r matches Err(e) && e@ == "请先安装 NearWeave，再启用局域网传输"@
            },
        }
    }
}

/// Whether administrator rights have to be asked for before other devices can be reached. They are
/// asked for only for the installed program.
pub fn needs_elevation(
    configured: bool,
    program: Result<String, String>,
    current: Result<String, String>,
    is_file: bool,
) -> (r: Result<bool, String>)
    ensures
        is_need(configured, program, current, is_file, r),
{
    if configured {
        return Ok(false);
    }
    match (program, current) {
        (Err(cause), _) => Err(cause),
        (Ok(_), Err(cause)) => Err(cause),
        (Ok(path), Ok(running)) => {
            if text::equal_ignoring_case(&running, &path) && is_file {
                Ok(true)
            } else {
                Err(String::from_str("请先安装 NearWeave，再启用局域网传输"))
            }
        },
    }
}

/// The program that is started with administrator rights, and what is asked of it.
#[derive(Debug)]
pub struct ElevationRequest {
    pub verb: &'static str,
    pub program: String,
    pub arguments: Vec<String>,
}

/// This program is started as a helper that makes the rules.
pub open spec fn is_request_for(request: ElevationRequest, program: Seq<char>) -> bool {
    &&& request.verb@ == "runas"@
    &&& request.program@ == program
    &&& request.arguments@.len() == 2
    &&& request.arguments@[0]@ == HELPER_SWITCH@
    &&& request.arguments@[1]@ == "firewall-add"@
}

/// How the installed program is started so that it makes the rules.
pub fn elevation_request(program: &str) -> (r: ElevationRequest)
    ensures
        is_request_for(r, program@),
{
    let mut arguments: Vec<String> = Vec::new();
    arguments.push(String::from_str(HELPER_SWITCH));
    arguments.push(String::from_str("firewall-add"));
    ElevationRequest { verb: "runas", program: String::from_str(program), arguments }
}

/// Asking for administrator rights has ended so, and the rules are there afterwards or not.
pub open spec fn is_end(outcome: Elevation, configured: bool, r: Result<(), String>) -> bool {
    &&& r is Ok <==> outcome == Elevation::Exited(0) && configured
    &&& r matches Err(e) ==> e@ == match outcome {
        Elevation::NotStarted => "Windows 管理员授权已取消或无法启动"@,
        Elevation::NoHandle => "无法等待 Windows 防火墙授权进程"@,
        Elevation::WaitFailed => "等待 Windows 防火墙授权结果失败"@,
        Elevation::Exited(code) => if code != 0 {
            "未能写入 NearWeave 局域网防火墙规则"@
        } else {
            "Windows 未保留 NearWeave 局域网防火墙规则"@
        },
    }
}

/// Whether asking for administrator rights has led to the rules that are needed.
pub fn check_elevation(outcome: Elevation, configured: bool) -> (r: Result<(), String>)
    ensures
        is_end(outcome, configured, r),
{
    match outcome {
        Elevation::NotStarted => Err(String::from_str("Windows 管理员授权已取消或无法启动")),
        Elevation::NoHandle => Err(String::from_str("无法等待 Windows 防火墙授权进程")),
        Elevation::WaitFailed => Err(String::from_str("等待 Windows 防火墙授权结果失败")),
        Elevation::Exited(code) => {
            if code != 0 {
                Err(String::from_str("未能写入 NearWeave 局域网防火墙规则"))
            } else if !configured {
                Err(String::from_str("Windows 未保留 NearWeave 局域网防火墙规则"))
            } else {
                Ok(())
            }
        },
    }
}

/// Where the firewall lets other devices in already, nothing is asked for. Where rights are asked
/// for, this is the installed program, and it is started as a helper that makes the rules and does
/// nothing else. Access is there on success, and a refusal or an exit code other than zero is no
/// success.
pub proof fn law_access_is_there_on_success(
    before: bool,
    program: Result<String, String>,
    current: Result<String, String>,
    is_file: bool,
    need: Result<bool, String>,
    request: ElevationRequest,
    outcome: Elevation,
    after: bool,
    r: Result<(), String>,
)
    requires
        is_need(before, program, current, is_file, need),
        match need {
            Err(cause) => r == Err::<(), String>(cause),
            Ok(false) => r is Ok && after == before,
            Ok(true) => is_request_for(request, program->Ok_0@) && is_end(outcome, after, r),
        },
    ensures
        before ==> need == Ok::<bool, String>(false) && r is Ok,
        need == Ok::<bool, String>(true) ==> {
            &&& program is Ok && current is Ok && is_file
            &&& text::same_ignoring_case(current->Ok_0@, program->Ok_0@)
            &&& request.verb@ == "runas"@
            &&& request.program@ == program->Ok_0@
            &&& forall|run: HelperRun|
                asks_for(request.arguments@, run) ==> run == HelperRun::Helper(
                    HelperAction::FirewallAdd,
                )
            &&& outcome != Elevation::Exited(0) ==> r is Err
        },
        r is Ok ==> after,
{
    reveal_strlit("firewall-add");
    reveal_strlit("migrate-pre");
    reveal_strlit("migrate-post");
    assert("firewall-add"@[0] == 'f' && "migrate-pre"@[0] == 'm' && "migrate-post"@[0] == 'm');
}

/// What these arguments ask for, the program's own name left out.
pub open spec fn asks_for(arguments: Seq<String>, run: HelperRun) -> bool {
    let n = arguments.len();
    if n == 0 || arguments[0]@ != HELPER_SWITCH@ {
        run is Application
    } else if n >= 2 && (arguments[1]@ == "migrate-pre"@ || arguments[1]@ == "migrate-post"@) {
        if n > 2 {
            run matches HelperRun::Refused(e) && e@ == "安装辅助参数过多"@
        } else if arguments[1]@ == "migrate-pre"@ {
            run matches HelperRun::Helper(HelperAction::MigratePre)
        } else {
            run matches HelperRun::Helper(HelperAction::MigratePost)
        }
    } else if n == 2 && arguments[1]@ == "firewall-add"@ {
        run matches HelperRun::Helper(HelperAction::FirewallAdd)
    } else if n == 2 && arguments[1]@ == "firewall-remove"@ {
        run matches HelperRun::Helper(HelperAction::FirewallRemove)
    } else if n == 2 && arguments[1]@ == "firewall-present"@ {
        run matches HelperRun::Helper(HelperAction::FirewallPresent)
    } else {
        run matches HelperRun::Refused(e) && e@ == "安装辅助参数无效"@
    }
}

/// How the program is to run with these arguments, its own name left out. A helper does one of a
/// few fixed things and nothing else: no command, path or rule is taken from the arguments.
pub fn run_installer_helper_from_args(arguments: &Vec<String>) -> (r: HelperRun)
    ensures
        asks_for(arguments@, r),
{
    let n: usize = arguments.len();
    if n == 0 || !text::same(&arguments[0], HELPER_SWITCH) {
        return HelperRun::Application;
    }
    if n >= 2 {
        let pre = text::same(&arguments[1], "migrate-pre");
        if pre || text::same(&arguments[1], "migrate-post") {
            if n > 2 {
                return HelperRun::Refused(String::from_str("安装辅助参数过多"));
            }
            return if pre {
                HelperRun::Helper(HelperAction::MigratePre)
            } else {
                HelperRun::Helper(HelperAction::MigratePost)
            };
        }
    }
    if n == 2 && text::same(&arguments[1], "firewall-add") {
        return HelperRun::Helper(HelperAction::FirewallAdd);
    }
    if n == 2 && text::same(&arguments[1], "firewall-remove") {
        return HelperRun::Helper(HelperAction::FirewallRemove);
    }
    if n == 2 && text::same(&arguments[1], "firewall-present") {
        return HelperRun::Helper(HelperAction::FirewallPresent);
    }
    HelperRun::Refused(String::from_str("安装辅助参数无效"))
}

/// The answer to the question whether any rule is there.
pub fn rules_present(any_present: bool) -> (r: Result<(), String>)
    ensures
        r is Ok <==> any_present,
        r matches Err(e) ==> e@ == "未配置 NearWeave 局域网防火墙规则"@,
{
    if any_present {
        Ok(())
    } else {
        Err(String::from_str("未配置 NearWeave 局域网防火墙规则"))
    }
}

/// The exit code by which a helper says how it has fared.
pub fn exit_code(result: &Result<(), String>) -> (r: i32)
    ensures
        r == if result is Ok {
            0i32
        } else {
            1i32
        },
{
    match result {
        Ok(()) => 0,
        Err(_) => 1,
    }
}

/// Whether there is an entry of an older product to be looked at.
pub fn find_legacy(candidates: usize, program_exists: bool) -> (r: Result<LegacySearch, String>)
    ensures
        if candidates > 1 {
            r matches Err(e) && e@ == "检测到多个旧版当前用户安装项，已中止安装"@
        } else if candidates == 1 {
            r == Ok::<LegacySearch, String>(LegacySearch::Found)
        } else if program_exists {
            r matches Err(e) && e@ == "检测到没有有效卸载项的旧版程序，已中止安装"@
        } else {
            r == Ok::<LegacySearch, String>(LegacySearch::Absent)
        },
{
    if candidates > 1 {
        return Err(String::from_str("检测到多个旧版当前用户安装项，已中止安装"));
    }
    if candidates == 1 {
        return Ok(LegacySearch::Found);
    }
    if program_exists {
        return Err(String::from_str("检测到没有有效卸载项的旧版程序，已中止安装"));
    }
    Ok(LegacySearch::Absent)
}

/// What is wrong with an entry that is not one of the older product: it is by another publisher, of
/// a version that cannot be followed, or in another place.
pub open spec fn entry_fault(
    publisher: Result<String, String>,
    version: Result<String, String>,
    location: Result<String, String>,
    expected: Seq<char>,
) -> Option<Seq<char>> {
    if publisher is Err {
        Some("Windows 注册表操作失败："@ + publisher->Err_0@)
    } else if publisher->Ok_0@ != PUBLISHER@ {
        Some("旧版安装项发布者不匹配，已中止安装"@)
    } else if version is Err {
        Some("Windows 注册表操作失败："@ + version->Err_0@)
    } else if !is_supported_version(version->Ok_0@) {
        Some("旧版安装项版本不在允许迁移的范围内，已中止安装"@)
    } else if location is Err {
        Some(location->Err_0@)
    } else if !text::same_ignoring_case(location->Ok_0@, expected) {
        Some("旧版安装路径异常，已中止安装"@)
    } else {
        None
    }
}

/// Refuses an entry that is not one of the older product.
pub fn check_legacy_entry(
    publisher: Result<String, String>,
    version: Result<String, String>,
    location: Result<String, String>,
    expected: &str,
) -> (r: Result<(), String>)
    ensures
        match entry_fault(publisher, version, location, expected@) {
            None => r is Ok,
            Some(fault) => r matches Err(e) && e@ == fault,
        },
{
    match publisher {
        Err(cause) => {
            return Err(registry_error(&cause));
        },
        Ok(name) => {
            if !text::same(&name, PUBLISHER) {
                return Err(String::from_str("旧版安装项发布者不匹配，已中止安装"));
            }
        },
    }
    match version {
        Err(cause) => {
            return Err(registry_error(&cause));
        },
        Ok(value) => {
            if !legacy_version_is_supported(&value) {
                return Err(
                    String::from_str("旧版安装项版本不在允许迁移的范围内，已中止安装"),
                );
            }
        },
    }
    match location {
        Err(cause) => Err(cause),
        Ok(path) => {
            if !text::equal_ignoring_case(&path, expected) {
                return Err(String::from_str("旧版安装路径异常，已中止安装"));
            }
            Ok(())
        },
    }
}

/// The program that ends the installation of the older product.
pub fn legacy_uninstaller(command: &Result<String, String>) -> (r: Result<String, String>)
    ensures
        match uninstaller_fault(*command) {
            None => r matches Ok(path) && program_of(command->Ok_0@) == Some(path@),
            Some(fault) => r matches Err(e) && e@ == fault,
        },
{
    match command {
        Err(cause) => Err(registry_error(cause)),
        Ok(c) => match command_path(c) {
            Some(path) => Ok(path),
            None => Err(String::from_str("旧版卸载程序命令无效，已中止安装")),
        },
    }
}

/// What is wrong with a command in which no program can be found.
pub open spec fn uninstaller_fault(command: Result<String, String>) -> Option<Seq<char>> {
    if command is Err {
        Some("Windows 注册表操作失败："@ + command->Err_0@)
    } else if program_of(command->Ok_0@) is None {
        Some("旧版卸载程序命令无效，已中止安装"@)
    } else {
        None
    }
}

/// What is wrong with an installation that cannot be ended: its program is elsewhere, it is not
/// complete, or it is still running.
pub open spec fn files_fault(
    uninstaller: Result<String, String>,
    expected: Seq<char>,
    complete: bool,
    running: Result<bool, String>,
) -> Option<Seq<char>> {
    if uninstaller is Err {
        Some(uninstaller->Err_0@)
    } else if !text::same_ignoring_case(uninstaller->Ok_0@, expected) {
        Some("旧版卸载程序路径异常，已中止安装"@)
    } else if !complete {
        Some("旧版安装文件不完整，已中止安装"@)
    } else if running is Err {
        Some(running->Err_0@)
    } else if running->Ok_0 {
        Some("旧版程序仍在运行，请退出后重试"@)
    } else {
        None
    }
}

/// Refuses to end an installation that cannot be ended.
pub fn check_legacy_files(
    uninstaller: Result<String, String>,
    expected: &str,
    complete: bool,
    running: Result<bool, String>,
) -> (r: Result<(), String>)
    ensures
        match files_fault(uninstaller, expected@, complete, running) {
            None => r is Ok,
            Some(fault) => r matches Err(e) && e@ == fault,
        },
{
    match uninstaller {
        Err(cause) => {
            return Err(cause);
        },
        Ok(path) => {
            if !text::equal_ignoring_case(&path, expected) {
                return Err(String::from_str("旧版卸载程序路径异常，已中止安装"));
            }
        },
    }
    if !complete {
        return Err(String::from_str("旧版安装文件不完整，已中止安装"));
    }
    match running {
        Err(cause) => Err(cause),
        Ok(is_running) => {
            if is_running {
                return Err(String::from_str("旧版程序仍在运行，请退出后重试"));
            }
            Ok(())
        },
    }
}

/// Why an installation cannot follow an older product, where it cannot.
pub open spec fn migration_fault(facts: LegacyFacts) -> Option<Seq<char>> {
    if facts.candidates > 1 {
        Some("检测到多个旧版当前用户安装项，已中止安装"@)
    } else if facts.candidates == 0 {
        if facts.program_exists {
            Some("检测到没有有效卸载项的旧版程序，已中止安装"@)
        } else {
            None
        }
    } else {
        let entry = entry_fault(
            facts.publisher,
            facts.version,
            facts.location,
            facts.expected_install@,
        );
        if entry is Some {
            entry
        } else if uninstaller_fault(facts.command) is Some {
            uninstaller_fault(facts.command)
        } else {
            files_fault(
                facts.uninstaller,
                facts.expected_uninstaller@,
                facts.uninstaller_exists && facts.program_exists,
                facts.running,
            )
        }
    }
}

/// What is to be remembered of the older product before its installation is ended, or why nothing
/// is installed.
pub fn plan_migration(facts: LegacyFacts) -> (r: Result<MigrationState, String>)
    ensures
        match migration_fault(facts) {
            Some(fault) => r matches Err(e) && e@ == fault,
            None => r == Ok::<MigrationState, String>(
                MigrationState {
                    found: facts.candidates == 1,
                    restore_autostart: facts.candidates == 1 && facts.autostart is Some
                        && text::same_ignoring_case(
                        facts.autostart->0@,
                        facts.expected_program@,
                    ),
                },
            ),
        },
{
    match find_legacy(facts.candidates, facts.program_exists) {
        Err(e) => {
            return Err(e);
        },
        Ok(LegacySearch::Absent) => {
            return Ok(MigrationState { found: false, restore_autostart: false });
        },
        Ok(LegacySearch::Found) => {},
    }
    match check_legacy_entry(
        facts.publisher,
        facts.version,
        facts.location,
        &facts.expected_install,
    ) {
        Err(e) => {
            return Err(e);
        },
        Ok(()) => {},
    }
    match legacy_uninstaller(&facts.command) {
        Err(e) => {
            return Err(e);
        },
        Ok(_) => {},
    }
    match check_legacy_files(
        facts.uninstaller,
        &facts.expected_uninstaller,
        facts.uninstaller_exists && facts.program_exists,
        facts.running,
    ) {
        Err(e) => {
            return Err(e);
        },
        Ok(()) => {},
    }
    let restore_autostart = restores_autostart(facts.autostart, &facts.expected_program);
    Ok(MigrationState { found: true, restore_autostart })
}

/// Whether a process is the older product: it goes by that name and runs from that place.
pub fn is_legacy_process(name: &str, binary_name: &str, path: Option<String>, expected: &str) -> (r:
    bool)
    ensures
        r == (text::same_ignoring_case(name@, binary_name@) && path is Some
            && text::same_ignoring_case(path->0@, expected@)),
{
    text::equal_ignoring_case(name, binary_name) && match path {
        Some(found) => text::equal_ignoring_case(&found, expected),
        None => false,
    }
}

/// Refuses to go on after the older product's uninstallation has failed.
pub fn check_uninstalled(status: Result<Option<i32>, String>) -> (r: Result<(), String>)
    ensures
        match status {
            Err(cause) => r matches Err(e) && e@ == "无法启动旧版卸载程序："@ + cause@,
            Ok(Some(0)) => r is Ok,
            Ok(Some(code)) => r matches Err(e) && e@ == "旧版卸载程序返回错误码 "@
                + code_words(code as int) + "，已中止安装"@,
            Ok(None) => r matches Err(e) && e@ == "旧版卸载程序返回错误码 "@ + code_words(-1)
                + "，已中止安装"@,
        },
{
    let code: i32 = match status {
        Err(cause) => {
            return Err(text::joined("无法启动旧版卸载程序：", &cause));
        },
        Ok(Some(code)) => code,
        Ok(None) => -1,
    };
    if code == 0 {
        return Ok(());
    }
    let digits = if code < 0 {
        text::joined("-", &text::decimal((-(code as i64)) as u128))
    } else {
        text::decimal(code as u128)
    };
    Err(text::joined3("旧版卸载程序返回错误码 ", &digits, "，已中止安装"))
}

/// A number with its sign.
pub open spec fn code_words(code: int) -> Seq<char> {
    if code < 0 {
        "-"@ + text::decimal_of((-code) as nat)
    } else {
        text::decimal_of(code as nat)
    }
}

/// Whether it is to be looked again, after so many looks, if something of the older product is left.
pub fn next_check(done: u32, program_left: bool, entry_left: bool) -> (r: bool)
    ensures
        r == (done < UNINSTALL_CHECKS && (program_left || entry_left)),
{
    done < UNINSTALL_CHECKS && (program_left || entry_left)
}

/// Refuses to go on while something of the older product is left.
pub fn check_gone(program_exists: bool, entry_exists: bool) -> (r: Result<(), String>)
    ensures
        r is Ok <==> !program_exists && !entry_exists,
        r matches Err(e) ==> e@ == "旧版卸载未完整结束，已中止安装"@,
{
    if program_exists || entry_exists {
        return Err(String::from_str("旧版卸载未完整结束，已中止安装"));
    }
    Ok(())
}

/// Whether the program is to start with the system again, as the older product did.
pub fn restores_autostart(path: Option<String>, expected: &str) -> (r: bool)
    ensures
        r == (path is Some && text::same_ignoring_case(path->0@, expected@)),
{
    match path {
        Some(found) => text::equal_ignoring_case(&found, expected),
        None => false,
    }
}

/// What is written to the registry so that the program starts with the system, where it is to.
/// Only the installed program is.
pub fn autostart_entry(
    state: MigrationState,
    current: Result<String, String>,
    program: Result<String, String>,
    is_file: bool,
) -> (r: Result<Option<String>, String>)
    ensures
        if !state.restore_autostart {
            r matches Ok(entry) && entry is None
        } else {
            match (current, program) {
                (Err(cause), _) => r == Err::<Option<String>, String>(cause),
                (Ok(_), Err(cause)) => r == Err::<Option<String>, String>(cause),
                (Ok(running), Ok(path)) => if text::same_ignoring_case(running@, path@) && is_file {
                    r matches Ok(Some(entry)) && entry@ == "\""@ + running@ + "\""@
                } else {
                    r matches Err(e) && e@ == "NearWeave 安装路径异常，无法恢复开机启动"@
                },
            }
        },
{
    if !state.restore_autostart {
        return Ok(None);
    }
    match (current, program) {
        (Err(cause), _) => Err(cause),
        (Ok(_), Err(cause)) => Err(cause),
        (Ok(running), Ok(path)) => {
            if !text::equal_ignoring_case(&running, &path) || !is_file {
                return Err(String::from_str("NearWeave 安装路径异常，无法恢复开机启动"));
            }
            Ok(Some(text::joined3("\"", &running, "\"")))
        },
    }
}

/// Text that was written for the system is read back, as far as it has no zero in it.
pub proof fn law_system_text_is_read_back(value: &str, written: Vec<u16>, data: &[u16], r: String)
    requires
        call_ensures(wide_null, (value,), written),
        data@ == written@,
        call_ensures(string_from_wide_nul, (data,), r),
        forall|i: int| 0 <= i < value@.len() ==> value@[i] != '\0',
    ensures
        r@ == value@,
        written@.last() == 0,
{
    law_coded_text_reads_back(value@, Seq::empty());
    assert(coded(value@).push(0) + Seq::<u16>::empty() =~= written@);
}

/// A version is three numbers with dots between them.
pub proof fn law_version_is_read(
    major: u32,
    minor: u32,
    patch: u32,
    a: String,
    b: String,
    c: String,
    value: &str,
    r: Option<(u32, u32, u32)>,
    supported: bool,
)
    requires
        call_ensures(text::decimal, (major as u128,), a),
        call_ensures(text::decimal, (minor as u128,), b),
        call_ensures(text::decimal, (patch as u128,), c),
        value@ == a@ + seq!['.'] + b@ + seq!['.'] + c@,
        call_ensures(parse_version, (value,), r),
        call_ensures(legacy_version_is_supported, (value,), supported),
    ensures
        r == Some((major, minor, patch)),
        supported <==> major == 0 && (minor == 1 || minor == 2 || minor == 3 && patch <= 1),
{
    text::lemma_decimal_value(major as nat);
    text::lemma_decimal_value(minor as nat);
    text::lemma_decimal_value(patch as nat);
    lemma_no_dot(a@);
    lemma_no_dot(b@);
    lemma_no_dot(c@);
    lemma_split_first(a@);
    lemma_split_more(a@, b@);
    lemma_split_more(a@ + seq!['.'] + b@, c@);
    let fields = text::split_of(value@, '.');
    assert(fields =~= seq![a@, b@, c@]);
    assert(text::is_digit(a@[0]) && text::is_digit(b@[0]) && text::is_digit(c@[0]));
    assert(text::unsigned_part(a@) == a@);
    assert(text::unsigned_part(b@) == b@);
    assert(text::unsigned_part(c@) == c@);
}

proof fn lemma_no_dot(s: Seq<char>)
    requires
        forall|i: int| 0 <= i < s.len() ==> text::is_digit(#[trigger] s[i]),
    ensures
        !s.contains('.'),
{
    if s.contains('.') {
        let i = s.index_of('.');
        assert(text::is_digit(s[i]));
    }
}

proof fn lemma_split_first(s: Seq<char>)
    requires
        !s.contains('.'),
    ensures
        text::split_of(s, '.') == seq![s],
    decreases s.len(),
{
    if s.len() > 0 {
        let front = s.drop_last();
        assert(!front.contains('.')) by {
            if front.contains('.') {
                let i = front.index_of('.');
                assert(s[i] == '.');
            }
        }
        lemma_split_first(front);
        assert(s.contains(s[s.len() - 1]));
        assert(front.push(s.last()) =~= s);
        assert(text::split_of(s, '.') =~= seq![s]);
    } else {
        assert(text::split_of(s, '.') =~= seq![s]);
    }
}

proof fn lemma_split_more(front: Seq<char>, back: Seq<char>)
    requires
        !back.contains('.'),
    ensures
        text::split_of(front + seq!['.'] + back, '.') == text::split_of(front, '.').push(back),
    decreases back.len(),
{
    let s = front + seq!['.'] + back;
    if back.len() == 0 {
        assert(s.drop_last() =~= front);
        assert(s.last() == '.');
        assert(back =~= Seq::<char>::empty());
    } else {
        let shorter = back.drop_last();
        assert(!shorter.contains('.')) by {
            if shorter.contains('.') {
                let i = shorter.index_of('.');
                assert(back[i] == '.');
            }
        }
        lemma_split_more(front, shorter);
        assert(s.drop_last() =~= front + seq!['.'] + shorter);
        assert(back.contains(back[back.len() - 1]));
        assert(s.last() == back.last());
        assert(shorter.push(back.last()) =~= back);
        let ps = text::split_of(front, '.').push(shorter);
        assert(ps.drop_last() =~= text::split_of(front, '.'));
        assert(text::split_of(s, '.') =~= text::split_of(front, '.').push(back));
    }
}

/// The program of a command is what stands in quotation marks at its beginning.
pub proof fn law_quoted_program_is_found(
    path: Seq<char>,
    rest: Seq<char>,
    command: &str,
    r: Option<String>,
)
    requires
        !path.contains('"'),
        command@ == seq!['"'] + path + seq!['"'] + rest,
        rest.len() == 0 || !text::is_white(rest.last()),
        call_ensures(command_path, (command,), r),
    ensures
        r matches Some(program) && program@ == path,
{
    let c = command@;
    assert(c[0] == '"');
    assert(!text::is_white('"'));
    assert(text::trim_front(c) == c);
    assert(c.last() == '"' || c.last() == rest.last());
    assert(text::trim_back(c) == c);
    let inner = c.skip(1);
    assert(inner[path.len() as int] == '"');
    assert(inner.contains('"'));
    let stops = |x: char| x == '"';
    assert forall|i: int| 0 <= i < path.len() implies !stops(#[trigger] inner[i]) by {
        assert(inner[i] == path[i]);
        assert(path.contains(path[i]));
    }
    lemma_head(inner, stops, path.len() as int);
    assert(inner.take(path.len() as int) =~= path);
}

/// A file lies in a directory: one separator stands between them.
pub proof fn law_path_has_one_separator(directory: &str, name: &str, r: String)
    requires
        call_ensures(join_path, (directory, name), r),
        directory@.len() > 2,
    ensures
        directory@.last() == '\\' || directory@.last() == '/' ==> r@ == directory@ + name@,
        directory@.last() != '\\' && directory@.last() != '/' ==> r@ == directory@ + seq!['\\']
            + name@,
{
    reveal_strlit("\\");
    assert("\\"@ =~= seq!['\\']);
}

/// The end of a path has no separators, and nothing else is taken off.
pub proof fn law_only_end_separators_are_dropped(path: &str, r: String)
    requires
        call_ensures(trim_separators, (path,), r),
    ensures
        r@.len() <= path@.len(),
        r@ == path@.take(r@.len() as int),
        r@.len() > 0 ==> r@.last() != '\\' && r@.last() != '/',
        forall|i: int|
            r@.len() <= i < path@.len() ==> #[trigger] path@[i] == '\\' || path@[i] == '/',
{
    lemma_without_end(path@);
}

proof fn lemma_without_end(path: Seq<char>)
    ensures
        without_end(path).len() <= path.len(),
        without_end(path) == path.take(without_end(path).len() as int),
        without_end(path).len() > 0 ==> !is_separator(without_end(path).last()),
        forall|i: int| without_end(path).len() <= i < path.len() ==> is_separator(#[trigger] path[i]),
    decreases path.len(),
{
    if path.len() > 0 && is_separator(path.last()) {
        let rest = path.drop_last();
        lemma_without_end(rest);
        let n = without_end(path).len() as int;
        assert(rest.take(n) =~= path.take(n));
        assert forall|i: int| n <= i < path.len() implies is_separator(#[trigger] path[i]) by {
            if i < rest.len() {
                assert(rest[i] == path[i]);
            }
        }
    } else {
        assert(path.take(path.len() as int) =~= path);
    }
}

/// The rules that are made let the program through, in both protocols, from the local subnet only.
pub proof fn law_rules_let_the_local_network_in(
    rules: Vec<FirewallRuleSpec>,
    program: &str,
    discovery: RuleFacts,
    transfer: RuleFacts,
)
    requires
        call_ensures(firewall_rules, (), rules),
        call_ensures(rule_to_make, (&rules@[0], program), discovery),
        call_ensures(rule_to_make, (&rules@[1], program), transfer),
    ensures
        rules@.len() == 2,
        discovery.protocol == Some(17i32) && transfer.protocol == Some(6i32),
        discovery.local_ports matches Some(ports) && ports@ == "37991"@,
        transfer.local_ports matches Some(ports) && ports@ == "*"@,
        discovery.application matches Some(path) && path@ == program@,
        transfer.application matches Some(path) && path@ == program@,
        discovery.remote_addresses matches Some(from) && from@ == "LocalSubnet"@,
        transfer.remote_addresses matches Some(from) && from@ == "LocalSubnet"@,
        discovery.allows == Some(true) && transfer.allows == Some(true),
        discovery.inbound == Some(true) && transfer.inbound == Some(true),
        discovery.enabled == Some(true) && transfer.enabled == Some(true),
        discovery.edge_traversal == Some(false) && transfer.edge_traversal == Some(false),
{
}

/// Rules as they are made are found to be in order, and a rule that differs in anything that
/// matters is not.
pub proof fn law_made_rules_are_in_order(
    rules: Vec<FirewallRuleSpec>,
    program: &str,
    path: String,
    discovery: RuleFacts,
    transfer: RuleFacts,
    r: bool,
)
    requires
        call_ensures(firewall_rules, (), rules),
        path@ == program@,
        call_ensures(rule_to_make, (&rules@[0], program), discovery),
        call_ensures(rule_to_make, (&rules@[1], program), transfer),
        call_ensures(
            lan_firewall_is_configured,
            (&Ok::<String, String>(path), &Ok((Some(discovery), Some(transfer)))),
            r,
        ),
    ensures
        r,
{
    law_made_rules_are_accepted(rules@[0], rules@[1], path, discovery, transfer);
}

/// A rule is in order only if it is there, is switched on, lets through what comes in, for this
/// program and protocol, from the local subnet.
pub proof fn law_other_rules_are_not_in_order(
    rule: Option<RuleFacts>,
    expected: FirewallRuleSpec,
    program: &str,
    r: bool,
)
    requires
        call_ensures(firewall_rule_is_current, (&rule, &expected, program), r),
        r,
    ensures
        rule matches Some(facts) && facts.enabled == Some(true) && facts.allows == Some(true)
            && facts.inbound == Some(true) && facts.edge_traversal == Some(false)
            && facts.protocol == Some(expected.protocol) && facts.profiles == Some(0x7fff_ffffi32)
            && facts.application is Some && text::same_ignoring_case(
            facts.application->0@,
            program@,
        ) && facts.remote_addresses is Some && text::same_ignoring_case(
            facts.remote_addresses->0@,
            "LocalSubnet"@,
        ) && facts.local_ports is Some && text::same_ignoring_case(
            facts.local_ports->0@,
            expected.local_ports@,
        ),
{
}

/// The access of the local network is set up for the installed program itself, and taken back with
/// every rule of this and of older products.
pub proof fn law_firewall_is_set_up_for_installed_program(
    add: bool,
    program: Result<String, String>,
    current: Result<String, String>,
    is_file: bool,
    r: Result<FirewallPlan, String>,
)
    requires
        call_ensures(configure_firewall, (add, program, current, is_file), r),
    ensures
        r is Ok <==> program is Ok && (!add || current is Ok && is_file && text::same_ignoring_case(
            current->Ok_0@,
            program->Ok_0@,
        )),
        r matches Ok(plan) ==> plan.remove@.len() == 6 && (add ==> plan.add@.len() == 2) && (!add
            ==> plan.add@.len() == 0),
{
    if r is Ok {
        let names = r->Ok_0.remove@.map_values(|s: String| s@);
        assert(names.len() == r->Ok_0.remove@.len());
    }
}

/// The user is asked for more rights exactly where they are needed: where the access is not set up,
/// and the installed program is the one that runs.
pub proof fn law_rights_are_asked_for_if_needed(
    configured: bool,
    program: Result<String, String>,
    current: Result<String, String>,
    is_file: bool,
    r: Result<bool, String>,
)
    requires
        call_ensures(needs_elevation, (configured, program, current, is_file), r),
    ensures
        configured <==> r == Ok::<bool, String>(false),
        r == Ok::<bool, String>(true) <==> !configured && program is Ok && current is Ok && is_file
            && text::same_ignoring_case(current->Ok_0@, program->Ok_0@),
{
}

/// More rights have led to the access only if the helper has ended well and the access is there.
pub proof fn law_access_is_checked(outcome: Elevation, configured: bool, r: Result<(), String>)
    requires
        call_ensures(check_elevation, (outcome, configured), r),
    ensures
        r is Ok <==> outcome == Elevation::Exited(0) && configured,
{
}

/// The helper does what its arguments ask for, and is not mistaken for the application.
pub proof fn law_helper_is_asked(
    program: &str,
    request: ElevationRequest,
    none: Vec<String>,
    r: HelperRun,
    application: HelperRun,
)
    requires
        call_ensures(elevation_request, (program,), request),
        call_ensures(run_installer_helper_from_args, (&request.arguments,), r),
        none@.len() == 0,
        call_ensures(run_installer_helper_from_args, (&none,), application),
    ensures
        request.program@ == program@,
        request.verb@ == "runas"@,
        r is Helper,
        application is Application,
{
    reveal_strlit("firewall-add");
    reveal_strlit("migrate-pre");
    reveal_strlit("migrate-post");
    assert("firewall-add"@.len() == 12);
    assert("migrate-pre"@.len() == 11);
    assert("firewall-add"@[0] == 'f' && "migrate-post"@[0] == 'm');
}

/// An older product is taken over only if there is one entry of it, of the right publisher, in a
/// version that can be, at its place, complete, and not running; where there is none, nothing is.
pub proof fn law_only_sound_products_are_taken_over(
    facts: LegacyFacts,
    r: Result<MigrationState, String>,
)
    requires
        call_ensures(plan_migration, (facts,), r),
    ensures
        r matches Ok(state) ==> {
            &&& facts.candidates <= 1
            &&& state.found <==> facts.candidates == 1
            &&& state.found ==> facts.publisher is Ok && facts.publisher->Ok_0@ == "railgun20001"@
                && facts.running == Ok::<bool, String>(false) && facts.program_exists
                && facts.uninstaller_exists && facts.version is Ok && is_supported_version(
                facts.version->Ok_0@,
            ) && facts.location is Ok && text::same_ignoring_case(
                facts.location->Ok_0@,
                facts.expected_install@,
            )
            &&& state.restore_autostart ==> state.found && facts.autostart is Some
            &&& !state.found ==> !facts.program_exists
        },
        facts.candidates == 0 && !facts.program_exists ==> r == Ok::<MigrationState, String>(
            MigrationState { found: false, restore_autostart: false },
        ),
        facts.candidates > 1 ==> r is Err,
{
}

/// The end of an older product is waited for at most twenty times, and as long as something of it is
/// left; after that it is gone, or the installation does not go on.
pub proof fn law_end_of_older_product_is_waited_for(
    done: u32,
    program_left: bool,
    entry_left: bool,
    again: bool,
    r: Result<(), String>,
)
    requires
        call_ensures(next_check, (done, program_left, entry_left), again),
        call_ensures(check_gone, (program_left, entry_left), r),
    ensures
        again ==> done < 20 && r is Err,
        !again && done < 20 ==> r is Ok,
        r is Ok <==> !program_left && !entry_left,
{
}

/// The start with the system is restored for the installed program, in quotation marks, if the older
/// product had it, and not otherwise.
pub proof fn law_start_with_system_is_restored(
    state: MigrationState,
    current: String,
    program: String,
    is_file: bool,
    r: Result<Option<String>, String>,
)
    requires
        call_ensures(
            autostart_entry,
            (state, Ok::<String, String>(current), Ok::<String, String>(program), is_file),
            r,
        ),
    ensures
        !state.restore_autostart ==> (r matches Ok(entry) && entry is None),
        state.restore_autostart ==> (r is Ok <==> is_file && text::same_ignoring_case(
            current@,
            program@,
        )),
        r matches Ok(Some(entry)) ==> entry@ == seq!['"'] + current@ + seq!['"'],
{
    reveal_strlit("\"");
    assert("\""@ =~= seq!['"']);
}

/// A product that was uninstalled has ended with no error.
pub proof fn law_uninstallation_is_checked(status: Result<Option<i32>, String>, r: Result<(), String>)
    requires
        call_ensures(check_uninstalled, (status,), r),
    ensures
        r is Ok <==> status == Ok::<Option<i32>, String>(Some(0i32)),
{
}

/// The helper ends with zero exactly where it has done what it was asked for.
pub proof fn law_helper_says_how_it_went(result: Result<(), String>, r: i32)
    requires
        call_ensures(exit_code, (&result,), r),
    ensures
        r == 0 <==> result is Ok,
{
}

/// Paths are the same whether they are written large or small.
pub proof fn law_paths_are_compared(a: String, b: String, r: Result<bool, String>)
    requires
        call_ensures(paths_equal, (Ok::<String, String>(a), Ok::<String, String>(b)), r),
    ensures
        a@ == b@ ==> r == Ok::<bool, String>(true),
        a@.len() != b@.len() ==> r == Ok::<bool, String>(false),
        r is Ok,
{
}

/// The installed program lies in a directory of its own below the data of the user.
pub proof fn law_installed_program_has_its_place(
    directory: String,
    at: &str,
    product: String,
    below: &str,
    name: String,
    r: Result<String, String>,
)
    requires
        call_ensures(expected_installed_program, (Some(directory),), r),
        at@ == directory@,
        call_ensures(join_path, (at, CURRENT_PRODUCT_NAME), product),
        below@ == product@,
        call_ensures(join_path, (below, CURRENT_BINARY_NAME), name),
    ensures
        r matches Ok(path) && path@ == name@,
{
}

/// The program of a command without quotation marks is its first word.
pub proof fn law_first_word_is_the_program(
    word: Seq<char>,
    rest: Seq<char>,
    command: &str,
    r: Option<String>,
)
    requires
        word.len() > 0,
        word[0] != '"',
        forall|i: int| 0 <= i < word.len() ==> !text::is_white(#[trigger] word[i]),
        command@ == word + seq![' '] + rest,
        rest.len() > 0 && !text::is_white(rest.last()),
        call_ensures(command_path, (command,), r),
    ensures
        r matches Some(program) && program@ == word,
{
    let c = command@;
    assert(c[0] == word[0]);
    assert(text::trim_front(c) == c);
    assert(c.last() == rest.last());
    assert(text::trim_back(c) == c);
    let stops = |x: char| text::is_white(x);
    assert forall|i: int| 0 <= i < word.len() implies !stops(#[trigger] c[i]) by {
        assert(c[i] == word[i]);
    }
    assert(c[word.len() as int] == ' ');
    lemma_head(c, stops, word.len() as int);
    assert(c.take(word.len() as int) =~= word);
}

/// One older product is found where there is one entry; more than one, or a program without an
/// entry, stops the installation.
pub proof fn law_one_older_product_is_found(
    candidates: usize,
    program_exists: bool,
    r: Result<LegacySearch, String>,
)
    requires
        call_ensures(find_legacy, (candidates, program_exists), r),
    ensures
        r == Ok::<LegacySearch, String>(LegacySearch::Found) <==> candidates == 1,
        r == Ok::<LegacySearch, String>(LegacySearch::Absent) <==> candidates == 0
            && !program_exists,
        r is Err <==> candidates > 1 || candidates == 0 && program_exists,
{
}

/// The entry of an older product is sound if it is of the right publisher, of a version that can be
/// taken over, and at its place; its files, if they are complete, at their place, and not in use.
pub proof fn law_older_product_is_checked(
    publisher: String,
    version: String,
    location: String,
    value: &str,
    supported: bool,
    expected: &str,
    uninstaller: String,
    complete: bool,
    running: bool,
    entry: Result<(), String>,
    files: Result<(), String>,
)
    requires
        value@ == version@,
        call_ensures(legacy_version_is_supported, (value,), supported),
        call_ensures(
            check_legacy_entry,
            (
                Ok::<String, String>(publisher),
                Ok::<String, String>(version),
                Ok::<String, String>(location),
                expected,
            ),
            entry,
        ),
        call_ensures(
            check_legacy_files,
            (
                Ok::<String, String>(uninstaller),
                expected,
                complete,
                Ok::<bool, String>(running),
            ),
            files,
        ),
    ensures
        entry is Ok <==> publisher@ == "railgun20001"@ && supported && text::same_ignoring_case(
            location@,
            expected@,
        ),
        files is Ok <==> text::same_ignoring_case(uninstaller@, expected@) && complete && !running,
{
}

/// The uninstaller of an older product is the program of the command that its entry names.
pub proof fn law_uninstaller_is_the_named_program(
    command: String,
    line: &str,
    program: Option<String>,
    r: Result<String, String>,
)
    requires
        line@ == command@,
        call_ensures(command_path, (line,), program),
        call_ensures(legacy_uninstaller, (&Ok::<String, String>(command),), r),
    ensures
        r is Ok <==> program is Some,
        r matches Ok(path) ==> path@ == program->0@,
{
}

/// A process is one of the older product if it has its name and runs its program; the start with the
/// system is restored if it was set to that program.
pub proof fn law_older_program_is_recognised(
    name: &str,
    binary: &str,
    path: Option<String>,
    expected: &str,
    process: bool,
    autostart: bool,
)
    requires
        call_ensures(is_legacy_process, (name, binary, path, expected), process),
        call_ensures(restores_autostart, (path, expected), autostart),
    ensures
        autostart <==> path is Some && text::same_ignoring_case(path->0@, expected@),
        process <==> autostart && text::same_ignoring_case(name@, binary@),
{
}

/// What is asked of the rules is answered by whether there are any, and paths are taken from the
/// environment as they are.
pub proof fn law_environment_is_used(
    name: &str,
    value: Option<String>,
    present: bool,
    directory: String,
    at: &str,
    file: String,
    rules: Result<(), String>,
    path: Result<String, String>,
    state_file: Result<String, String>,
)
    requires
        call_ensures(rules_present, (present,), rules),
        call_ensures(required_environment_path, (name, value), path),
        call_ensures(migration_state_file, (Some(directory),), state_file),
        at@ == directory@,
        call_ensures(join_path, (at, MIGRATION_FILE_NAME), file),
    ensures
        rules is Ok <==> present,
        path is Ok <==> value is Some,
        path matches Ok(p) ==> p@ == value->0@,
        state_file matches Ok(p) && p@ == file@,
{
}

/// The access of the local network is set up only if the program is known and both rules are in
/// order for it.
pub proof fn law_access_needs_both_rules(
    program: Result<String, String>,
    path: &str,
    rules: Result<(Option<RuleFacts>, Option<RuleFacts>), String>,
    discovery: Option<RuleFacts>,
    transfer: Option<RuleFacts>,
    specs: Vec<FirewallRuleSpec>,
    first: bool,
    second: bool,
    r: bool,
)
    requires
        call_ensures(firewall_rules, (), specs),
        program is Ok ==> path@ == program->Ok_0@,
        rules == Ok::<(Option<RuleFacts>, Option<RuleFacts>), String>((discovery, transfer)),
        call_ensures(firewall_rule_is_current, (&discovery, &specs@[0], path), first),
        call_ensures(firewall_rule_is_current, (&transfer, &specs@[1], path), second),
        call_ensures(lan_firewall_is_configured, (&program, &rules), r),
    ensures
        r <==> program is Ok && first && second,
{
}

} // verus!
