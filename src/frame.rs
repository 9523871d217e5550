use vstd::prelude::*;
use crate::text::{
    chars_of, decimal_u64, lemma_split_cons, lemma_split_none, no_match_before, occurs_at,
    parse_u64, split, split_on, sub_vec, trim, trimmed, unsigned_digits, views,
};

verus! {

/// `s` with the prefix `p` taken off, if `s` starts with `p`.
pub open spec fn strip_prefix(s: Seq<char>, p: Seq<char>) -> Option<Seq<char>> {
    if p.len() <= s.len() && s.subrange(0, p.len() as int) == p {
        Some(s.subrange(p.len() as int, s.len() as int))
    } else {
        None
    }
}

/// `s` with the suffix `p` taken off, if `s` ends with `p`.
pub open spec fn strip_suffix(s: Seq<char>, p: Seq<char>) -> Option<Seq<char>> {
    if p.len() <= s.len() && s.subrange(s.len() - p.len(), s.len() as int) == p {
        Some(s.subrange(0, s.len() - p.len()))
    } else {
        None
    }
}

pub fn strip_prefix_of(s: &Vec<char>, p: &Vec<char>) -> (r: Option<Vec<char>>)
    ensures
        r matches Some(v) ==> strip_prefix(s@, p@) == Some(v@),
        r is None ==> strip_prefix(s@, p@) is None,
{
    if p.len() <= s.len() && occurs_at(s, 0, p) {
        Some(sub_vec(s, p.len(), s.len()))
    } else {
        None
    }
}

pub fn strip_suffix_of(s: &Vec<char>, p: &Vec<char>) -> (r: Option<Vec<char>>)
    ensures
        r matches Some(v) ==> strip_suffix(s@, p@) == Some(v@),
        r is None ==> strip_suffix(s@, p@) is None,
{
    if p.len() <= s.len() && occurs_at(s, s.len() - p.len(), p) {
        Some(sub_vec(s, 0, s.len() - p.len()))
    } else {
        None
    }
}

/// The number of solenoid channels that a frame reports.
pub const CHANNELS: usize = 16;

/// The delimiter between the fields of a frame.
pub open spec fn field_sep() -> Seq<char> {
    seq![' ', '|', ' ']
}

/// The timestamp field: `TS:` and a decimal `u64`.
pub open spec fn timestamp_field(f: Seq<char>) -> Option<u64> {
    match strip_prefix(f, seq!['T', 'S', ':']) {
        Some(rest) => decimal_u64(rest),
        None => None,
    }
}

/// The arming field: `ARM:` and exactly `1` (armed) or `0` (disarmed).
pub open spec fn armed_field(f: Seq<char>) -> Option<bool> {
    match strip_prefix(f, seq!['A', 'R', 'M', ':']) {
        Some(rest) => if rest == seq!['1'] {
            Some(true)
        } else if rest == seq!['0'] {
            Some(false)
        } else {
            None
        },
        None => None,
    }
}

/// A voltage field: the label, then the reading's text, then a closing `V`.
/// The result is the reading's text.
pub open spec fn voltage_field(f: Seq<char>, label: Seq<char>) -> Option<Seq<char>> {
    match strip_prefix(f, label) {
        Some(rest) => strip_suffix(rest, seq!['V']),
        None => None,
    }
}

pub open spec fn battery_label() -> Seq<char> {
    seq!['B', 'A', 'T', 'T', ':']
}

pub open spec fn sense_label() -> Seq<char> {
    seq!['A', 'R', 'M', '_', 'S', 'E', 'N', 'S', 'E', ':']
}

/// One solenoid entry, `<index>:<state>`: exactly one `:`, the state exactly `ON` or
/// `OFF`. The index text is not looked at.
pub open spec fn switch_entry(e: Seq<char>) -> Option<bool> {
    let parts = split(e, seq![':']);
    if parts.len() != 2 {
        None
    } else if parts[1] == seq!['O', 'N'] {
        Some(true)
    } else if parts[1] == seq!['O', 'F', 'F'] {
        Some(false)
    } else {
        None
    }
}

/// The solenoid field: `SOL:` and exactly sixteen comma-separated entries; entry `k`
/// gives channel `k + 1`, whatever index it names.
pub open spec fn solenoid_field(f: Seq<char>) -> Option<Seq<bool>> {
    match strip_prefix(f, seq!['S', 'O', 'L', ':']) {
        Some(rest) => {
            let entries = split(rest, seq![',']);
            if entries.len() == CHANNELS && forall|k: int|
                0 <= k < CHANNELS ==> (#[trigger] switch_entry(entries[k])) is Some {
                Some(Seq::new(CHANNELS as nat, |k: int| switch_entry(entries[k])->0))
            } else {
                None
            }
        },
        None => None,
    }
}

/// What a well-formed frame says. The two voltages are kept as the text of their
/// readings.
pub ghost struct FrameModel {
    pub timestamp: u64,
    pub armed: bool,
    pub battery: Seq<char>,
    pub arming: Seq<char>,
    pub solenoids: Seq<bool>,
}

/// The frame that `line` encodes, if it is well formed: five fields separated by
/// `" | "`, each as its own spec function above describes.
pub open spec fn frame_of(line: Seq<char>) -> Option<FrameModel> {
    let f = split(line, field_sep());
    if f.len() != 5 {
        None
    } else {
        match (
            timestamp_field(f[0]),
            armed_field(f[1]),
            voltage_field(f[2], battery_label()),
            voltage_field(f[3], sense_label()),
            solenoid_field(f[4]),
        ) {
            (Some(t), Some(a), Some(b), Some(s), Some(sol)) => Some(
                FrameModel { timestamp: t, armed: a, battery: b, arming: s, solenoids: sol },
            ),
            _ => None,
        }
    }
}

/// Every accepted line reports exactly sixteen solenoid states.
pub proof fn frame_reports_every_channel(line: Seq<char>)
    ensures
        frame_of(line) matches Some(f) ==> f.solenoids.len() == CHANNELS,
{
}

pub open spec fn flag_text(b: bool) -> Seq<char> {
    if b {
        seq!['1']
    } else {
        seq!['0']
    }
}

pub open spec fn state_text(on: bool) -> Seq<char> {
    if on {
        seq!['O', 'N']
    } else {
        seq!['O', 'F', 'F']
    }
}

/// A solenoid entry: the index text, `:` and the state.
pub open spec fn entry_text(index: Seq<char>, on: bool) -> Seq<char> {
    index + seq![':'] + state_text(on)
}

/// The entries from position `k` on, comma-separated, entry `j` with index text
/// `indices[j]`.
pub open spec fn entries_from(sol: Seq<bool>, indices: Seq<Seq<char>>, k: nat) -> Seq<char>
    decreases sol.len() - k,
{
    if k + 1 >= sol.len() {
        entry_text(indices[k as int], sol[k as int])
    } else {
        entry_text(indices[k as int], sol[k as int]) + seq![','] + entries_from(
            sol,
            indices,
            k + 1,
        )
    }
}

/// The line that states `f`, with `ts` as the timestamp's text and `indices` as the
/// index texts of the solenoid entries.
pub open spec fn render(f: FrameModel, ts: Seq<char>, indices: Seq<Seq<char>>) -> Seq<char> {
    seq!['T', 'S', ':'] + ts + field_sep() + seq!['A', 'R', 'M', ':'] + flag_text(f.armed)
        + field_sep() + battery_label() + f.battery + seq!['V'] + field_sep() + sense_label()
        + f.arming + seq!['V'] + field_sep() + seq!['S', 'O', 'L', ':'] + entries_from(
        f.solenoids,
        indices,
        0,
    )
}

/// An index text that cannot be taken for a delimiter.
pub open spec fn plain_index(t: Seq<char>) -> bool {
    lacks(t, ':') && lacks(t, ',') && lacks(t, '|')
}

pub open spec fn lacks(s: Seq<char>, c: char) -> bool {
    forall|k: int| 0 <= k < s.len() ==> s[k] != c
}

proof fn lemma_sep_free(p: Seq<char>, r: Seq<char>)
    requires
        lacks(p, '|'),
    ensures
        no_match_before(p + field_sep() + r, field_sep(), p.len() as int),
{
    let s = p + field_sep() + r;
    assert forall|k: int| 0 <= k < p.len() && k + 3 <= s.len() implies #[trigger] s.subrange(
        k,
        k + 3,
    ) != field_sep() by {
        assert(s.subrange(k, k + 3)[1] == s[k + 1]);
        if k + 1 < p.len() {
            assert(s[k + 1] == p[k + 1]);
        } else {
            assert(s[k + 1] == ' ');
        }
    }
}

proof fn lemma_last_field(p: Seq<char>)
    requires
        lacks(p, '|'),
    ensures
        split(p, field_sep()) == seq![p],
{
    assert forall|k: int| 0 <= k < p.len() && k + 3 <= p.len() implies #[trigger] p.subrange(
        k,
        k + 3,
    ) != field_sep() by {
        assert(p.subrange(k, k + 3)[1] == p[k + 1]);
    }
    lemma_split_none(p, field_sep());
}

proof fn lemma_char_free(p: Seq<char>, c: char, r: Seq<char>)
    requires
        lacks(p, c),
    ensures
        no_match_before(p + seq![c] + r, seq![c], p.len() as int),
{
    let s = p + seq![c] + r;
    assert forall|k: int| 0 <= k < p.len() && k + 1 <= s.len() implies #[trigger] s.subrange(
        k,
        k + 1,
    ) != seq![c] by {
        assert(s.subrange(k, k + 1)[0] == p[k]);
    }
}

proof fn lemma_no_match_all(p: Seq<char>, c: char)
    requires
        lacks(p, c),
    ensures
        no_match_before(p, seq![c], p.len() as int),
{
    assert forall|k: int| 0 <= k < p.len() && k + 1 <= p.len() implies #[trigger] p.subrange(
        k,
        k + 1,
    ) != seq![c] by {
        assert(p.subrange(k, k + 1)[0] == p[k]);
    }
}

proof fn lemma_number_text_plain(t: Seq<char>)
    requires
        decimal_u64(t) is Some,
    ensures
        lacks(t, '|'),
{
    let d = unsigned_digits(t);
    assert forall|j: int| 0 <= j < t.len() implies t[j] != '|' by {
        if t.len() > 0 && t[0] == '+' {
            if j > 0 {
                assert(t[j] == d[j - 1]);
                assert(crate::text::is_digit(d[j - 1]));
            }
        } else {
            assert(crate::text::is_digit(d[j]));
        }
    }
}

proof fn lemma_entry(index: Seq<char>, on: bool)
    requires
        plain_index(index),
    ensures
        lacks(entry_text(index, on), '|'),
        lacks(entry_text(index, on), ','),
        switch_entry(entry_text(index, on)) == Some(on),
{
    let d = index;
    let st = state_text(on);
    let e = entry_text(index, on);
    assert forall|j: int| 0 <= j < e.len() implies e[j] != '|' && e[j] != ',' by {
        if j < d.len() {
            assert(e[j] == d[j]);
        } else if j > d.len() {
            assert(e[j] == st[j - d.len() - 1]);
        }
    }
    lemma_char_free(d, ':', st);
    lemma_split_cons(d, seq![':'], st);
    lemma_no_match_all(st, ':');
    lemma_split_none(st, seq![':']);
    assert(split(e, seq![':']) =~= seq![d, st]);
    if !on {
        assert(st[0] == 'O' && st.len() == 3);
        assert(st != seq!['O', 'N']);
    }
}

proof fn lemma_entries(sol: Seq<bool>, indices: Seq<Seq<char>>, k: nat)
    requires
        k < sol.len() <= indices.len(),
        forall|j: int| 0 <= j < indices.len() ==> plain_index(#[trigger] indices[j]),
    ensures
        lacks(entries_from(sol, indices, k), '|'),
        split(entries_from(sol, indices, k), seq![',']) =~= Seq::new(
            (sol.len() - k) as nat,
            |j: int| entry_text(indices[k + j], sol[k + j]),
        ),
    decreases sol.len() - k,
{
    lemma_entry(indices[k as int], sol[k as int]);
    let e = entry_text(indices[k as int], sol[k as int]);
    if k + 1 >= sol.len() {
        lemma_no_match_all(e, ',');
        lemma_split_none(e, seq![',']);
    } else {
        lemma_entries(sol, indices, k + 1);
        let rest = entries_from(sol, indices, k + 1);
        lemma_char_free(e, ',', rest);
        lemma_split_cons(e, seq![','], rest);
        let whole = e + seq![','] + rest;
        assert forall|j: int| 0 <= j < whole.len() implies whole[j] != '|' by {
            if j < e.len() {
                assert(whole[j] == e[j]);
            } else if j > e.len() {
                assert(whole[j] == rest[j - e.len() - 1]);
            }
        }
    }
}

proof fn lemma_label_reading(label: Seq<char>, v: Seq<char>)
    ensures
        voltage_field(label + v + seq!['V'], label) == Some(v),
{
    let f = label + v + seq!['V'];
    assert(f.subrange(0, label.len() as int) =~= label);
    let rest = f.subrange(label.len() as int, f.len() as int);
    assert(rest =~= v + seq!['V']);
    assert(rest.subrange(rest.len() - 1, rest.len() as int) =~= seq!['V']);
    assert(rest.subrange(0, rest.len() - 1) =~= v);
}

proof fn lemma_lacks_concat(a: Seq<char>, b: Seq<char>, c: char)
    requires
        lacks(a, c),
        lacks(b, c),
    ensures
        lacks(a + b, c),
{
    assert forall|j: int| 0 <= j < (a + b).len() implies (a + b)[j] != c by {
        if j < a.len() {
            assert((a + b)[j] == a[j]);
        } else {
            assert((a + b)[j] == b[j - a.len()]);
        }
    }
}

/// Any line in the grammar decodes to exactly the fields it states: a timestamp text
/// that reads as a `u64` gives that number, `1`/`0` give armed/disarmed, `ON`/`OFF`
/// give each solenoid's state by position whatever the index texts say, and each
/// reading's text comes back as it was. Readings and index texts that held a
/// delimiter would change the field structure, so they are left out.
pub proof fn frame_round_trip(f: FrameModel, ts: Seq<char>, indices: Seq<Seq<char>>)
    requires
        decimal_u64(ts) == Some(f.timestamp),
        f.solenoids.len() == CHANNELS,
        indices.len() == CHANNELS,
        forall|k: int| 0 <= k < CHANNELS ==> plain_index(#[trigger] indices[k]),
        lacks(f.battery, '|'),
        lacks(f.arming, '|'),
    ensures
        frame_of(render(f, ts, indices)) == Some(f),
{
    let sep = field_sep();
    let f0 = seq!['T', 'S', ':'] + ts;
    let f1 = seq!['A', 'R', 'M', ':'] + flag_text(f.armed);
    let f2 = battery_label() + f.battery + seq!['V'];
    let f3 = sense_label() + f.arming + seq!['V'];
    let es = entries_from(f.solenoids, indices, 0);
    let f4 = seq!['S', 'O', 'L', ':'] + es;
    assert(render(f, ts, indices) =~= f0 + sep + (f1 + sep + (f2 + sep + (f3 + sep + f4))));
    lemma_number_text_plain(ts);
    lemma_lacks_concat(seq!['T', 'S', ':'], ts, '|');
    lemma_lacks_concat(seq!['A', 'R', 'M', ':'], flag_text(f.armed), '|');
    lemma_lacks_concat(battery_label(), f.battery, '|');
    lemma_lacks_concat(battery_label() + f.battery, seq!['V'], '|');
    lemma_lacks_concat(sense_label(), f.arming, '|');
    lemma_lacks_concat(sense_label() + f.arming, seq!['V'], '|');
    lemma_entries(f.solenoids, indices, 0);
    lemma_lacks_concat(seq!['S', 'O', 'L', ':'], es, '|');
    let r2 = f3 + sep + f4;
    let r1 = f2 + sep + r2;
    let r0 = f1 + sep + r1;
    lemma_last_field(f4);
    lemma_sep_free(f3, f4);
    lemma_split_cons(f3, sep, f4);
    lemma_sep_free(f2, r2);
    lemma_split_cons(f2, sep, r2);
    lemma_sep_free(f1, r1);
    lemma_split_cons(f1, sep, r1);
    lemma_sep_free(f0, r0);
    lemma_split_cons(f0, sep, r0);
    let fields = split(render(f, ts, indices), sep);
    assert(fields =~= seq![f0, f1, f2, f3, f4]);
    // The timestamp.
    assert(f0.subrange(0, 3) =~= seq!['T', 'S', ':']);
    assert(f0.subrange(3, f0.len() as int) =~= ts);
    assert(timestamp_field(f0) == Some(f.timestamp));
    // The arming flag.
    assert(f1.subrange(0, 4) =~= seq!['A', 'R', 'M', ':']);
    assert(f1.subrange(4, f1.len() as int) =~= flag_text(f.armed));
    if !f.armed {
        assert(flag_text(false)[0] != seq!['1'][0]);
    }
    assert(armed_field(f1) == Some(f.armed));
    // The readings.
    lemma_label_reading(battery_label(), f.battery);
    lemma_label_reading(sense_label(), f.arming);
    // The solenoids.
    assert(f4.subrange(0, 4) =~= seq!['S', 'O', 'L', ':']);
    assert(f4.subrange(4, f4.len() as int) =~= es);
    let entries = split(es, seq![',']);
    assert forall|k: int| 0 <= k < CHANNELS implies #[trigger] switch_entry(entries[k]) == Some(
        f.solenoids[k],
    ) by {
        assert(entries[k] == entry_text(indices[k], f.solenoids[k]));
        lemma_entry(indices[k], f.solenoids[k]);
    }
    assert(Seq::new(CHANNELS as nat, |k: int| switch_entry(entries[k])->0) =~= f.solenoids);
    assert(solenoid_field(f4) == Some(f.solenoids));
}
/// A decoded telemetry line. The voltage readings are still text: turning them into
/// numbers is left to the caller.
pub struct Frame {
    pub timestamp: u64,
    pub armed: bool,
    pub battery: Vec<char>,
    pub arming: Vec<char>,
    pub solenoids: Vec<bool>,
}

impl View for Frame {
    type V = FrameModel;

    open spec fn view(&self) -> FrameModel {
        FrameModel {
            timestamp: self.timestamp,
            armed: self.armed,
            battery: self.battery@,
            arming: self.arming@,
            solenoids: self.solenoids@,
        }
    }
}

fn timestamp_of(f: &Vec<char>) -> (r: Option<u64>)
    ensures
        r == timestamp_field(f@),
{
    match strip_prefix_of(f, &vec!['T', 'S', ':']) {
        Some(rest) => parse_u64(&rest),
        None => None,
    }
}

fn armed_of(f: &Vec<char>) -> (r: Option<bool>)
    ensures
        r == armed_field(f@),
{
    match strip_prefix_of(f, &vec!['A', 'R', 'M', ':']) {
        Some(rest) => {
            if rest.len() == 1 && rest[0] == '1' {
                assert(rest@ =~= seq!['1']);
                Some(true)
            } else if rest.len() == 1 && rest[0] == '0' {
                assert(rest@ =~= seq!['0']);
                Some(false)
            } else {
                assert(rest@ != seq!['1'] && rest@ != seq!['0']) by {
                    if rest@.len() == 1 {
                        assert(rest@[0] != seq!['1'][0]);
                        assert(rest@[0] != seq!['0'][0]);
                    }
                }
                None
            }
        },
        None => None,
    }
}

fn voltage_of(f: &Vec<char>, label: &Vec<char>) -> (r: Option<Vec<char>>)
    ensures
        r matches Some(v) ==> voltage_field(f@, label@) == Some(v@),
        r is None ==> voltage_field(f@, label@) is None,
{
    match strip_prefix_of(f, label) {
        Some(rest) => {
            let v: Vec<char> = vec!['V'];
            assert(v@ =~= seq!['V']);
            strip_suffix_of(&rest, &v)
        },
        None => None,
    }
}

/// Whether `s` is exactly `w`.
fn same_chars(s: &Vec<char>, w: &Vec<char>) -> (r: bool)
    ensures
        r == (s@ == w@),
{
    if s.len() != w.len() {
        return false;
    }
    let r = occurs_at(s, 0, w);
    assert(s@.subrange(0, w@.len() as int) =~= s@);
    r
}

fn switch_of(e: &Vec<char>) -> (r: Option<bool>)
    ensures
        r == switch_entry(e@),
{
    let colon: Vec<char> = vec![':'];
    assert(colon@ =~= seq![':']);
    let parts = split_on(e, &colon);
    assert(views(parts@).len() == parts@.len());
    if parts.len() != 2 {
        return None;
    }
    assert(views(parts@)[1] == parts@[1]@);
    let state = &parts[1];
    let on: Vec<char> = vec!['O', 'N'];
    let off: Vec<char> = vec!['O', 'F', 'F'];
    assert(on@ =~= seq!['O', 'N']);
    assert(off@ =~= seq!['O', 'F', 'F']);
    if same_chars(state, &on) {
        Some(true)
    } else if same_chars(state, &off) {
        Some(false)
    } else {
        None
    }
}

fn solenoids_of(f: &Vec<char>) -> (r: Option<Vec<bool>>)
    ensures
        r matches Some(v) ==> solenoid_field(f@) == Some(v@),
        r is None ==> solenoid_field(f@) is None,
{
    let label: Vec<char> = vec!['S', 'O', 'L', ':'];
    assert(label@ =~= seq!['S', 'O', 'L', ':']);
    let rest = match strip_prefix_of(f, &label) {
        Some(rest) => rest,
        None => return None,
    };
    let comma: Vec<char> = vec![','];
    assert(comma@ =~= seq![',']);
    let entries = split_on(&rest, &comma);
    let ghost es = split(rest@, seq![',']);
    assert(views(entries@) == es);
    assert(views(entries@).len() == entries@.len());
    if entries.len() != CHANNELS {
        return None;
    }
    let mut out: Vec<bool> = Vec::new();
    let mut k: usize = 0;
    while k < CHANNELS
        invariant
            k <= CHANNELS == entries@.len() == es.len(),
            views(entries@) == es,
            es == split(rest@, seq![',']),
            strip_prefix(f@, seq!['S', 'O', 'L', ':']) == Some(rest@),
            out@.len() == k,
            forall|j: int| 0 <= j < k ==> (#[trigger] switch_entry(es[j])) == Some(out@[j]),
        decreases CHANNELS - k,
    {
        assert(es[k as int] == entries@[k as int]@);
        match switch_of(&entries[k]) {
            Some(b) => out.push(b),
            None => {
                assert(switch_entry(es[k as int]) is None);
                return None;
            },
        }
        k = k + 1;
    }
    assert(out@ =~= Seq::new(CHANNELS as nat, |j: int| switch_entry(es[j])->0));
    Some(out)
}

/// Decodes one telemetry line. Any departure from the grammar rejects the whole line.
pub fn parse_frame(line: &str) -> (r: Option<Frame>)
    ensures
        r matches Some(f) ==> frame_of(line@) == Some(f@) && f.solenoids@.len() == CHANNELS,
        r is None ==> frame_of(line@) is None,
{
    proof { frame_reports_every_channel(line@); }
    let chars = chars_of(line);
    parse_chars(&chars)
}

/// Decodes a line as it came off the wire: surrounding whitespace, the line end
/// included, is trimmed first.
pub fn parse_received(line: &str) -> (r: Option<Frame>)
    ensures
        r matches Some(f) ==> frame_of(trim(line@)) == Some(f@) && f.solenoids@.len()
            == CHANNELS,
        r is None ==> frame_of(trim(line@)) is None,
{
    proof { frame_reports_every_channel(trim(line@)); }
    let chars = chars_of(line);
    let inner = trimmed(&chars);
    parse_chars(&inner)
}

fn parse_chars(line: &Vec<char>) -> (r: Option<Frame>)
    ensures
        r matches Some(f) ==> frame_of(line@) == Some(f@),
        r is None ==> frame_of(line@) is None,
{
    let sep: Vec<char> = vec![' ', '|', ' '];
    assert(sep@ =~= field_sep());
    let fields = split_on(line, &sep);
    let ghost fs = split(line@, field_sep());
    assert(views(fields@) == fs);
    assert(views(fields@).len() == fields@.len());
    if fields.len() != 5 {
        return None;
    }
    assert(forall|k: int| 0 <= k < 5 ==> fs[k] == (#[trigger] fields@[k])@);
    let timestamp = match timestamp_of(&fields[0]) {
        Some(t) => t,
        None => return None,
    };
    let armed = match armed_of(&fields[1]) {
        Some(a) => a,
        None => return None,
    };
    let batt: Vec<char> = vec!['B', 'A', 'T', 'T', ':'];
    assert(batt@ =~= battery_label());
    let battery = match voltage_of(&fields[2], &batt) {
        Some(b) => b,
        None => return None,
    };
    let sense: Vec<char> = vec!['A', 'R', 'M', '_', 'S', 'E', 'N', 'S', 'E', ':'];
    assert(sense@ =~= sense_label());
    let arming = match voltage_of(&fields[3], &sense) {
        Some(a) => a,
        None => return None,
    };
    let solenoids = match solenoids_of(&fields[4]) {
        Some(s) => s,
        None => return None,
    };
    Some(Frame { timestamp, armed, battery, arming, solenoids })
}

} // verus!
