use vstd::prelude::*;
use vstd::string::StringSliceAdditionalSpecFns;

use crate::bytes::{
    all_digits, decimal_value, lemma_decimal_digits_read_back, append_bytes, copy_range, decimal_digits, decimal_signed, push_decimal, push_decimal_signed,
    range_equals,
};
use crate::color::{packed_24bit, RGBColor};
use crate::response::{
    find_byte, find_double_slash, first_double_slash, first_index, header_line_ok, header_lines,
    header_of, line_bounds, lookup, pop_char_end, split_lines, COLON,
};
use crate::rng::{gen_range_i32, thread_rng};

verus! {

/// How a bulb is connected.
#[derive(Clone, Copy, PartialEq, Eq, Structural, Debug, Default)]
pub enum LightBulbModes {
    /// The bulb streams commands to our listener without replies.
    MusicMode,
    /// We hold an ordinary command connection to the bulb.
    StandartMode,
    /// Not connected yet.
    #[default]
    NoneMode,
}

/// A bulb found on the network, as the control logic sees it: its id and
/// address as announced (bytes of the announcement), the address and port
/// on which it is told to connect back in music mode, and the connection mode.
pub struct LightBulb {
    id: Vec<u8>,
    ip: Vec<u8>,
    music_mode_ip: Vec<u8>,
    music_mode_port: i32,
    current_state: LightBulbModes,
}

pub struct LightBulbView {
    pub id: Seq<u8>,
    pub ip: Seq<u8>,
    pub music_mode_ip: Seq<u8>,
    pub music_mode_port: i32,
    pub current_state: LightBulbModes,
}

impl View for LightBulb {
    type V = LightBulbView;

    closed spec fn view(&self) -> LightBulbView {
        LightBulbView {
            id: self.id@,
            ip: self.ip@,
            music_mode_ip: self.music_mode_ip@,
            music_mode_port: self.music_mode_port,
            current_state: self.current_state,
        }
    }
}

/// The address on which bulbs are asked to connect back in music mode.
pub open spec fn music_host() -> Seq<u8> {
    "192.168.0.133".spec_bytes()
}

/// The lowest music-mode port; a bulb gets one of the ten from here.
pub const MUSIC_PORT_BASE: i32 = 1488;

/// A discovery answer can be read without failing: it has a first line and a
/// status line, every header line splits, a `Location` header holds `//`,
/// and an `id` header is present.
pub open spec fn response_parsable(s: Seq<u8>) -> bool {
    let h = header_lines(s);
    &&& split_lines(s).len() >= 2
    &&& forall|j: int| 0 <= j < h.len() ==> header_line_ok(#[trigger] h[j])
    &&& lookup(h, "Location".spec_bytes()) matches Some(loc) && first_double_slash(loc) is Some
    &&& lookup(h, "id".spec_bytes()) is Some
}

/// The bulb described by a discovery answer, with music-mode port
/// `1488 + offset`: its id is the `id` header, its address what follows
/// `//` in the `Location` header.
pub open spec fn parsed_bulb(s: Seq<u8>, offset: int) -> LightBulbView {
    let h = header_lines(s);
    let loc = lookup(h, "Location".spec_bytes()).unwrap();
    LightBulbView {
        id: lookup(h, "id".spec_bytes()).unwrap(),
        ip: loc.skip(first_double_slash(loc).unwrap() + 2),
        music_mode_ip: music_host(),
        music_mode_port: (MUSIC_PORT_BASE + offset) as i32,
        current_state: LightBulbModes::NoneMode,
    }
}

/// Whether the header lines of `s` (with bounds `b`) can all be split.
spec fn bounds_ok(s: Seq<u8>, b: Seq<(usize, usize)>) -> bool {
    &&& b.len() == split_lines(s).len()
    &&& forall|j: int|
        #![trigger b[j]]
        0 <= j < b.len() ==> b[j].0 <= b[j].1 <= s.len() && s.subrange(b[j].0 as int, b[j].1 as int)
            == split_lines(s)[j]
}

/// Byte range of the value of header `key` in `s`.
fn lookup_header(s: &[u8], b: &Vec<(usize, usize)>, key: &[u8]) -> (r: Option<(usize, usize)>)
    requires
        bounds_ok(s@, b@),
        b@.len() >= 2,
        forall|j: int| 0 <= j < header_lines(s@).len() ==> header_line_ok(#[trigger] header_lines(s@)[j]),
    ensures
        match lookup(header_lines(s@), key@) {
            Some(v) => r matches Some(p) && p.0 <= p.1 <= s@.len() && s@.subrange(p.0 as int, p.1 as int) == v,
            None => r is None,
        },
{
    let ghost lines = split_lines(s@);
    let n = b.len();
    let mut r: Option<(usize, usize)> = None;
    let mut k: usize = 2;
    while k < n
        invariant
            bounds_ok(s@, b@),
            lines == split_lines(s@),
            n == b@.len(),
            2 <= k <= n,
            forall|j: int| 0 <= j < header_lines(s@).len() ==> header_line_ok(#[trigger] header_lines(s@)[j]),
            match lookup(lines.subrange(2, k as int), key@) {
                Some(v) => r matches Some(p) && p.0 <= p.1 <= s@.len() && s@.subrange(p.0 as int, p.1 as int) == v,
                None => r is None,
            },
        decreases n - k,
    {
        let (lo, hi) = b[k];
        let ghost line = lines[k as int];
        assert(b@[k as int] == (lo, hi));
        assert(s@.subrange(lo as int, hi as int) == line);
        assert(header_lines(s@)[k - 2] == line);
        assert(lines.subrange(2, k + 1).drop_last() =~= lines.subrange(2, k as int));
        assert(lines.subrange(2, k + 1).last() == line);
        match find_byte(s, lo, hi, COLON) {
            Some(c) => {
                assert(first_index(line, COLON) == Some(c - lo));
                assert(header_line_ok(line));
                assert(line.take(c - lo) =~= s@.subrange(lo as int, c as int));
                assert(line.skip(c - lo + 2) =~= s@.subrange(c + 2, hi as int));
                if range_equals(s, lo, c, key) {
                    let e = pop_char_end(s, c + 2, hi);
                    r = Some((c + 2, e));
                }
            },
            None => {},
        }
        k = k + 1;
    }
    assert(lines.subrange(2, n as int) =~= header_lines(s@));
    r
}

/// Whether a discovery answer can be read (see `response_parsable`).
pub fn is_parsable(response: &str) -> (r: bool)
    ensures
        r == response_parsable(response.spec_bytes()),
{
    let s = response.as_bytes();
    let b = line_bounds(s);
    let ghost h = header_lines(s@);
    if b.len() < 2 {
        return false;
    }
    let n = b.len();
    let mut k: usize = 2;
    while k < n
        invariant
            bounds_ok(s@, b@),
            s@ == response.spec_bytes(),
            h == header_lines(s@),
            n == b@.len(),
            2 <= k <= n,
            forall|j: int| 0 <= j < k - 2 ==> header_line_ok(#[trigger] h[j]),
        decreases n - k,
    {
        let (lo, hi) = b[k];
        let ghost line = split_lines(s@)[k as int];
        assert(b@[k as int] == (lo, hi));
        assert(s@.subrange(lo as int, hi as int) == line);
        assert(h[k - 2] == line);
        match find_byte(s, lo, hi, COLON) {
            Some(c) => {
                if !(c + 1 < hi && s[c + 1] < 0x80) {
                    assert(!header_line_ok(h[k - 2]));
                    assert(0 <= k - 2 < h.len());
                    assert(!response_parsable(s@));
                    return false;
                }
            },
            None => {},
        }
        k = k + 1;
    }
    match lookup_header(s, &b, "Location".as_bytes()) {
        Some((lo, hi)) => {
            if find_double_slash(s, lo, hi).is_none() {
                return false;
            }
        },
        None => {
            return false;
        },
    }
    lookup_header(s, &b, "id".as_bytes()).is_some()
}

/// Which connection work a switch of mode asks for.
#[derive(Clone, Copy, PartialEq, Eq, Structural, Debug)]
pub enum SwitchPlan {
    /// Try to start music mode until it succeeds.
    StartMusicModeUntilOk,
    /// Open (or keep) an ordinary command connection.
    Connect,
}

/// What connecting to a bulb has to do.
#[derive(Clone, Copy, PartialEq, Eq, Structural, Debug)]
pub enum ConnectAction {
    /// The command connection is up and writable: nothing to do.
    KeepConnection,
    /// Open a new command connection.
    Connect,
}

/// What connecting does in connection mode `state` with a socket that is
/// (or is not) writable.
pub open spec fn spec_connect_action(state: LightBulbModes, is_writable: bool) -> ConnectAction {
    if state == LightBulbModes::StandartMode && is_writable {
        ConnectAction::KeepConnection
    } else {
        ConnectAction::Connect
    }
}

/// The steps of starting music mode, in order.
#[derive(Clone, Copy, PartialEq, Eq, Structural, Debug)]
pub enum MusicStartStep {
    /// Opening the command connection when its socket is not writable.
    Connect,
    /// Binding the listener the bulb connects back to.
    Listen,
    /// Sending the command that turns music mode off.
    MusicOff,
    /// Sending the command that turns music mode on.
    MusicOn,
    /// Accepting the bulb's connection.
    Accept,
    /// Shutting the old command connection down.
    CloseOld,
}

/// Whether a failure at `step` abandons the attempt to start music mode:
/// failing to open the command connection and failing to send the command
/// that turns music mode on are passed over; every other failure abandons it.
pub open spec fn spec_failure_aborts(step: MusicStartStep) -> bool {
    match step {
        MusicStartStep::Connect => false,
        MusicStartStep::MusicOn => false,
        _ => true,
    }
}

/// The plan for switching a bulb to `new_state`.
pub open spec fn spec_switch_plan(new_state: LightBulbModes) -> SwitchPlan {
    match new_state {
        LightBulbModes::MusicMode => SwitchPlan::StartMusicModeUntilOk,
        _ => SwitchPlan::Connect,
    }
}

/// The `set_rgb` command for a packed colour and a fade time in milliseconds.
pub open spec fn set_rgb_command_bytes(rgb: u32, fade_ms: u128) -> Seq<u8> {
    "{\"id\":3,\"method\":\"set_rgb\",\"params\":[".spec_bytes() + decimal_digits(rgb as nat)
        + ", \"smooth\", ".spec_bytes() + decimal_digits(fade_ms as nat) + "]}\r\n".spec_bytes()
}

/// The `set_hsv` command (fade of 100 ms).
pub open spec fn set_hsv_command_bytes(hue: u16, sat: u8) -> Seq<u8> {
    "{\"id\":3,\"method\":\"set_hsv\",\"params\":[".spec_bytes() + decimal_digits(hue as nat)
        + ", ".spec_bytes() + decimal_digits(sat as nat) + ",\"smooth\", 100]}\r\n".spec_bytes()
}

/// The `set_bright` command for a brightness and a fade time in milliseconds.
pub open spec fn set_bright_command_bytes(bright: u8, fade_ms: u128) -> Seq<u8> {
    "{\"id\":3,\"method\":\"set_bright\",\"params\":[".spec_bytes() + decimal_digits(bright as nat)
        + ",\"smooth\", ".spec_bytes() + decimal_digits(fade_ms as nat) + "]}\r\n".spec_bytes()
}

/// The command that turns music mode off.
pub open spec fn music_off_command_bytes() -> Seq<u8> {
    "{\"id\":1,\"method\":\"set_music\",\"params\":[0]}\r\n".spec_bytes()
}

/// The command that asks a bulb to connect back to `host:port` in music mode.
pub open spec fn music_on_command_bytes(host: Seq<u8>, port: i32) -> Seq<u8> {
    "{\"id\":1,\"method\":\"set_music\",\"params\":[1, \"".spec_bytes() + host + "\", ".spec_bytes()
        + decimal_signed(port as int) + "]}\r\n".spec_bytes()
}

/// `host:port`.
pub open spec fn host_port_bytes(host: Seq<u8>, port: i32) -> Seq<u8> {
    host + ":".spec_bytes() + decimal_signed(port as int)
}

/// The host part of an address: what precedes its first colon.
pub open spec fn host_part(addr: Seq<u8>) -> Seq<u8> {
    match first_index(addr, COLON) {
        Some(n) => addr.take(n),
        None => addr,
    }
}

impl LightBulb {
    /// Reads a discovery answer, with music-mode port `1488 + offset`.
    pub fn parse_with_port_offset(response: &str, offset: i32) -> (lb: LightBulb)
        requires
            response_parsable(response.spec_bytes()),
            0 <= offset <= i32::MAX - MUSIC_PORT_BASE,
        ensures
            lb@ == parsed_bulb(response.spec_bytes(), offset as int),
    {
        let s = response.as_bytes();
        let b = line_bounds(s);
        let (llo, lhi) = lookup_header(s, &b, "Location".as_bytes()).unwrap();
        let (ilo, ihi) = lookup_header(s, &b, "id".as_bytes()).unwrap();
        let start = find_double_slash(s, llo, lhi).unwrap() + 2;
        let ghost loc = s@.subrange(llo as int, lhi as int);
        assert(loc.skip(start - llo) =~= s@.subrange(start as int, lhi as int));
        let lb = LightBulb {
            id: copy_range(s, ilo, ihi),
            ip: copy_range(s, start, lhi),
            music_mode_ip: vstd::slice::slice_to_vec("192.168.0.133".as_bytes()),
            music_mode_port: MUSIC_PORT_BASE + offset,
            current_state: LightBulbModes::NoneMode,
        };
        lb
    }

    /// Reads a discovery answer; the music-mode port is drawn at random from
    /// 1488..1498.
    pub fn parse(response: &str) -> (lb: LightBulb)
        requires
            response_parsable(response.spec_bytes()),
        ensures
            MUSIC_PORT_BASE <= lb@.music_mode_port < MUSIC_PORT_BASE + 10,
            lb@ == parsed_bulb(response.spec_bytes(), lb@.music_mode_port - MUSIC_PORT_BASE),
    {
        let mut rng = thread_rng();
        let offset = gen_range_i32(&mut rng, 0, 10);
        Self::parse_with_port_offset(response, offset)
    }

    /// The bulb's id, as announced.
    pub fn id(&self) -> (r: &Vec<u8>)
        ensures
            r@ == self@.id,
    {
        &self.id
    }

    /// The bulb's address (`host:port`), as announced.
    pub fn ip(&self) -> (r: &Vec<u8>)
        ensures
            r@ == self@.ip,
    {
        &self.ip
    }

    /// The connection mode.
    pub fn current_state(&self) -> (r: LightBulbModes)
        ensures
            r == self@.current_state,
    {
        self.current_state
    }

    /// The port of the music-mode listener.
    pub fn music_mode_port(&self) -> (r: i32)
        ensures
            r == self@.music_mode_port,
    {
        self.music_mode_port
    }

    /// What connecting does: nothing when an ordinary connection is up and
    /// the socket writable, else open a new connection.
    pub fn connect_action(&self, is_writable: bool) -> (a: ConnectAction)
        ensures
            a == spec_connect_action(self@.current_state, is_writable),
    {
        if self.current_state == LightBulbModes::StandartMode && is_writable {
            ConnectAction::KeepConnection
        } else {
            ConnectAction::Connect
        }
    }

    /// Records that an ordinary command connection was opened.
    pub fn mark_connected(&mut self)
        ensures
            final(self)@ == (LightBulbView { current_state: LightBulbModes::StandartMode, ..old(self)@ }),
    {
        self.current_state = LightBulbModes::StandartMode;
    }

    /// Whether starting music mode has anything to do: not when the bulb is
    /// already in music mode.
    pub fn music_mode_needed(&self) -> (r: bool)
        ensures
            r == (self@.current_state != LightBulbModes::MusicMode),
    {
        self.current_state != LightBulbModes::MusicMode
    }

    /// Records that the bulb connected back in music mode.
    pub fn mark_music_mode(&mut self)
        ensures
            final(self)@ == (LightBulbView { current_state: LightBulbModes::MusicMode, ..old(self)@ }),
    {
        self.current_state = LightBulbModes::MusicMode;
    }

    /// Whether switching all bulbs to `mode` concerns this one.
    pub fn needs_mode_change(&self, mode: LightBulbModes) -> (r: bool)
        ensures
            r == (self@.current_state != mode),
    {
        self.current_state != mode
    }

    /// The work that switching to `new_state` asks for.
    pub fn switch_plan(new_state: LightBulbModes) -> (p: SwitchPlan)
        ensures
            p == spec_switch_plan(new_state),
    {
        match new_state {
            LightBulbModes::MusicMode => SwitchPlan::StartMusicModeUntilOk,
            LightBulbModes::StandartMode => SwitchPlan::Connect,
            LightBulbModes::NoneMode => SwitchPlan::Connect,
        }
    }

    /// The plan of `init_connection`: switch to music mode.
    pub fn init_plan() -> (p: SwitchPlan)
        ensures
            p == spec_switch_plan(LightBulbModes::MusicMode),
    {
        Self::switch_plan(LightBulbModes::MusicMode)
    }

    /// Whether a failure at `step` abandons starting music mode.
    pub fn music_start_failure_aborts(step: MusicStartStep) -> (r: bool)
        ensures
            r == spec_failure_aborts(step),
    {
        match step {
            MusicStartStep::Connect => false,
            MusicStartStep::MusicOn => false,
            MusicStartStep::Listen => true,
            MusicStartStep::MusicOff => true,
            MusicStartStep::Accept => true,
            MusicStartStep::CloseOld => true,
        }
    }

    /// The command that sets a colour with a fade of `fader_interval_ms`.
    pub fn set_color_command(color: RGBColor, fader_interval_ms: u128) -> (c: Vec<u8>)
        ensures
            c@ == set_rgb_command_bytes(packed_24bit(color@) as u32, fader_interval_ms),
    {
        let mut c: Vec<u8> = Vec::new();
        append_bytes(&mut c, "{\"id\":3,\"method\":\"set_rgb\",\"params\":[".as_bytes());
        push_decimal(&mut c, color.get24Bit() as u128);
        append_bytes(&mut c, ", \"smooth\", ".as_bytes());
        push_decimal(&mut c, fader_interval_ms);
        append_bytes(&mut c, "]}\r\n".as_bytes());
        c
    }

    /// The command that sets hue and saturation.
    pub fn set_hsv_command(hue: u16, sat: u8) -> (c: Vec<u8>)
        ensures
            c@ == set_hsv_command_bytes(hue, sat),
    {
        let mut c: Vec<u8> = Vec::new();
        append_bytes(&mut c, "{\"id\":3,\"method\":\"set_hsv\",\"params\":[".as_bytes());
        push_decimal(&mut c, hue as u128);
        append_bytes(&mut c, ", ".as_bytes());
        push_decimal(&mut c, sat as u128);
        append_bytes(&mut c, ",\"smooth\", 100]}\r\n".as_bytes());
        c
    }

    /// The command that sets the brightness with a fade of `fader_interval_ms`.
    pub fn set_brightness_command(bright: u8, fader_interval_ms: u128) -> (c: Vec<u8>)
        ensures
            c@ == set_bright_command_bytes(bright, fader_interval_ms),
    {
        let mut c: Vec<u8> = Vec::new();
        append_bytes(&mut c, "{\"id\":3,\"method\":\"set_bright\",\"params\":[".as_bytes());
        push_decimal(&mut c, bright as u128);
        append_bytes(&mut c, ",\"smooth\", ".as_bytes());
        push_decimal(&mut c, fader_interval_ms);
        append_bytes(&mut c, "]}\r\n".as_bytes());
        c
    }

    /// The command that turns music mode off (sent before turning it on).
    pub fn music_off_command() -> (c: Vec<u8>)
        ensures
            c@ == music_off_command_bytes(),
    {
        vstd::slice::slice_to_vec("{\"id\":1,\"method\":\"set_music\",\"params\":[0]}\r\n".as_bytes())
    }

    /// The command that asks this bulb to connect back to our music-mode listener.
    pub fn music_on_command(&self) -> (c: Vec<u8>)
        ensures
            c@ == music_on_command_bytes(self@.music_mode_ip, self@.music_mode_port),
    {
        let mut c: Vec<u8> = Vec::new();
        append_bytes(&mut c, "{\"id\":1,\"method\":\"set_music\",\"params\":[1, \"".as_bytes());
        append_bytes(&mut c, self.music_mode_ip.as_slice());
        append_bytes(&mut c, "\", ".as_bytes());
        push_decimal_signed(&mut c, self.music_mode_port as i64);
        append_bytes(&mut c, "]}\r\n".as_bytes());
        c
    }

    /// The address (`host:port`) on which the music-mode listener binds.
    pub fn music_listen_address(&self) -> (a: Vec<u8>)
        ensures
            a@ == host_port_bytes(self@.music_mode_ip, self@.music_mode_port),
    {
        let mut a: Vec<u8> = Vec::new();
        append_bytes(&mut a, self.music_mode_ip.as_slice());
        append_bytes(&mut a, ":".as_bytes());
        push_decimal_signed(&mut a, self.music_mode_port as i64);
        a
    }

    /// The host to ping: the bulb's address up to its first colon.
    pub fn ping_host(&self) -> (h: Vec<u8>)
        ensures
            h@ == host_part(self@.ip),
    {
        let s = self.ip.as_slice();
        assert(s@.subrange(0, s@.len() as int) =~= s@);
        match find_byte(s, 0, s.len(), COLON) {
            Some(n) => {
                assert(s@.subrange(0, s@.len() as int) =~= s@);
                assert(s@.take(n as int) =~= s@.subrange(0, n as int));
                copy_range(s, 0, n)
            },
            None => {
                assert(s@.subrange(0, s@.len() as int) =~= s@);
                copy_range(s, 0, s.len())
            },
        }
    }
}

/// Connecting is idempotent: once a connection was recorded, connecting again
/// over a writable socket keeps it; starting music mode is idempotent too.
/// Only a switch to music mode retries; the other modes connect.
pub proof fn lemma_connection_idempotent(v: LightBulbView)
    ensures
        spec_connect_action(
            (LightBulbView { current_state: LightBulbModes::StandartMode, ..v }).current_state,
            true,
        ) == ConnectAction::KeepConnection,
        spec_connect_action(v.current_state, false) == ConnectAction::Connect,
        (LightBulbView { current_state: LightBulbModes::MusicMode, ..v }).current_state
            == LightBulbModes::MusicMode,
        spec_switch_plan(LightBulbModes::StandartMode) == spec_switch_plan(LightBulbModes::NoneMode),
        spec_switch_plan(LightBulbModes::MusicMode) == SwitchPlan::StartMusicModeUntilOk,
{
}

/// The `set_bright` command carries the requested brightness unchanged: right
/// after its fixed prefix stand decimal digits that read back as `bright`,
/// followed by a comma; the fade time follows in the same way after the
/// `"smooth", ` field.
pub proof fn lemma_set_bright_carries_values(bright: u8, fade_ms: u128)
    ensures
        ({
            let c = set_bright_command_bytes(bright, fade_ms);
            let p = "{\"id\":3,\"method\":\"set_bright\",\"params\":[".spec_bytes().len() as int;
            exists|d: Seq<u8>|
                #![trigger decimal_value(d)]
                {
                    &&& d.len() >= 1
                    &&& all_digits(d)
                    &&& decimal_value(d) == bright
                    &&& p + d.len() < c.len()
                    &&& c.subrange(p, p + d.len()) == d
                    &&& c[p + d.len()] == 44u8
                }
        }),
        ({
            let c = set_bright_command_bytes(bright, fade_ms);
            let s = "]}\r\n".spec_bytes();
            exists|d: Seq<u8>|
                #![trigger decimal_value(d)]
                {
                    &&& d.len() >= 1
                    &&& all_digits(d)
                    &&& decimal_value(d) == fade_ms
                    &&& d.len() + s.len() <= c.len()
                    &&& c.subrange(c.len() - s.len() - d.len(), c.len() - s.len()) == d
                    &&& c[c.len() - s.len() - d.len() - 1] == 32u8
                }
        }),
{
    let pre = "{\"id\":3,\"method\":\"set_bright\",\"params\":[".spec_bytes();
    let mid = ",\"smooth\", ".spec_bytes();
    let suf = "]}\r\n".spec_bytes();
    let db = decimal_digits(bright as nat);
    let df = decimal_digits(fade_ms as nat);
    lemma_decimal_digits_read_back(bright as nat);
    lemma_decimal_digits_read_back(fade_ms as nat);
    reveal_strlit(",\"smooth\", ");
    broadcast use vstd::string::group_string_axioms;

    assert(vstd::string::is_ascii(",\"smooth\", "));
    assert(mid.len() == 11);
    assert(mid[0] == 44u8);
    assert(mid[10] == 32u8);
    let c = set_bright_command_bytes(bright, fade_ms);
    assert(c == pre + db + mid + df + suf);
    let p = pre.len() as int;
    assert(c.subrange(p, p + db.len()) =~= db);
    assert(c[p + db.len()] == mid[0]);
    assert(c.subrange(c.len() - suf.len() - df.len(), c.len() - suf.len()) =~= df);
    assert(c[c.len() - suf.len() - df.len() - 1] == mid[10]);
}

/// The SSDP search that asks bulbs on the network to announce themselves.
pub open spec fn discovery_message_bytes() -> Seq<u8> {
    "M-SEARCH * HTTP/1.1\r\nMAN: \"ssdp:discover\"\r\nST: wifi_bulb\r\n".spec_bytes()
}

/// The discovery search message.
pub fn discovery_message() -> (m: Vec<u8>)
    ensures
        m@ == discovery_message_bytes(),
{
    vstd::slice::slice_to_vec("M-SEARCH * HTTP/1.1\r\nMAN: \"ssdp:discover\"\r\nST: wifi_bulb\r\n".as_bytes())
}

} // verus!
