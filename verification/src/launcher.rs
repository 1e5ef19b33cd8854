//! The launcher's state and the texts it shows: discovery, start and stop of
//! republishing, and the live frame count grouped by thousands.
use vstd::prelude::*;

use crate::ndi::Source;
use crate::text::{decimal, decimal_digits, is_digit, lemma_decimal_reads_back, push_char};
use crate::output::{output_kind, output_kind_name, Platform};

verus! {

/// `d` with a comma between every group of three digits, counted from the
/// right (`"1234567"` becomes `"1,234,567"`).
pub open spec fn grouped(d: Seq<char>) -> Seq<char>
    decreases d.len(),
{
    if d.len() <= 3 {
        d
    } else {
        grouped(d.take(d.len() - 3)) + seq![','] + d.skip(d.len() - 3)
    }
}

/// True iff a comma goes before position `k` of a run of `len` digits.
pub open spec fn comma_before(len: int, k: int) -> bool {
    k > 0 && (len - k) % 3 == 0
}

/// The grouped rendering of the first `i` digits of `d`, built left to right.
spec fn grouping_prefix(d: Seq<char>, i: nat) -> Seq<char>
    decreases i,
{
    if i == 0 {
        Seq::empty()
    } else {
        let k = i - 1;
        let prev = grouping_prefix(d, k as nat);
        if comma_before(d.len() as int, k) {
            prev.push(',').push(d[k])
        } else {
            prev.push(d[k])
        }
    }
}

/// Short runs get no comma.
proof fn lemma_short_prefix(d: Seq<char>, i: nat)
    requires
        d.len() <= 3,
        i <= d.len(),
    ensures
        grouping_prefix(d, i) == d.take(i as int),
    decreases i,
{
    if i > 0 {
        lemma_short_prefix(d, (i - 1) as nat);
        assert(d.take(i as int) =~= d.take(i - 1).push(d[i - 1]));
    }
}

/// Before the last three digits, a run builds exactly as the run without them.
proof fn lemma_prefix_of_head(d: Seq<char>, i: nat)
    requires
        d.len() > 3,
        i <= d.len() - 3,
    ensures
        grouping_prefix(d, i) == grouping_prefix(d.take(d.len() - 3), i),
    decreases i,
{
    if i > 0 {
        lemma_prefix_of_head(d, (i - 1) as nat);
        let k = i - 1;
        let p = d.take(d.len() - 3);
        assert(p[k] == d[k]);
        assert(comma_before(d.len() as int, k) == comma_before(p.len() as int, k));
    }
}

/// Building left to right gives the grouping defined from the right.
proof fn lemma_grouping_prefix_whole(d: Seq<char>)
    ensures
        grouping_prefix(d, d.len()) == grouped(d),
    decreases d.len(),
{
    let len = d.len();
    if len <= 3 {
        lemma_short_prefix(d, len);
        assert(d.take(len as int) =~= d);
    } else {
        let p = d.take(len - 3);
        lemma_prefix_of_head(d, (len - 3) as nat);
        lemma_grouping_prefix_whole(p);
        assert(comma_before(len as int, len - 3));
        assert(!comma_before(len as int, len - 2));
        assert(!comma_before(len as int, len - 1));
        let a = grouping_prefix(d, (len - 3) as nat);
        let b = a.push(',').push(d[len - 3]);
        assert(grouping_prefix(d, (len - 2) as nat) == b);
        assert(grouping_prefix(d, (len - 1) as nat) == b.push(d[len - 2]));
        assert(grouping_prefix(d, len) == b.push(d[len - 2]).push(d[len - 1]));
        assert(grouping_prefix(d, len) =~= grouped(p) + seq![','] + d.skip(len - 3));
    }
}

/// `s` without its commas.
pub open spec fn without_commas(s: Seq<char>) -> Seq<char>
    decreases s.len(),
{
    if s.len() == 0 {
        Seq::empty()
    } else if s.last() == ',' {
        without_commas(s.drop_last())
    } else {
        without_commas(s.drop_last()).push(s.last())
    }
}

proof fn lemma_without_commas_concat(a: Seq<char>, b: Seq<char>)
    ensures
        without_commas(a + b) == without_commas(a) + without_commas(b),
    decreases b.len(),
{
    if b.len() == 0 {
        assert(a + b =~= a);
        assert(without_commas(a) + without_commas(b) =~= without_commas(a));
    } else {
        lemma_without_commas_concat(a, b.drop_last());
        assert((a + b).drop_last() =~= a + b.drop_last());
        assert((a + b).last() == b.last());
        if b.last() != ',' {
            assert(without_commas(a) + without_commas(b) =~= (without_commas(a)
                + without_commas(b.drop_last())).push(b.last()));
        }
    }
}

/// Grouping only inserts commas: removing them gives back the digits.
pub proof fn lemma_grouping_keeps_digits(d: Seq<char>)
    requires
        forall|i: int| 0 <= i < d.len() ==> d[i] != ',',
    ensures
        without_commas(grouped(d)) == d,
    decreases d.len(),
{
    if d.len() <= 3 {
        lemma_no_commas_kept(d);
    } else {
        let p = d.take(d.len() - 3);
        let t = d.skip(d.len() - 3);
        lemma_grouping_keeps_digits(p);
        lemma_no_commas_kept(t);
        lemma_without_commas_concat(grouped(p) + seq![','], t);
        lemma_without_commas_concat(grouped(p), seq![',']);
        assert(without_commas(seq![',']) =~= Seq::<char>::empty()) by {
            assert(seq![','].drop_last() =~= Seq::<char>::empty());
            assert(seq![','].last() == ',');
            assert(without_commas(Seq::<char>::empty()) == Seq::<char>::empty());
        }
        assert(p + t =~= d);
    }
}

/// The first group of `len > 0` grouped digits holds `first_group(len)`
/// digits (one to three); every later group holds three.
pub open spec fn first_group(len: nat) -> int {
    len - 3 * ((len - 1) / 3)
}

/// Where the commas of grouped digits stand: for a run of `len > 0` digits,
/// after the first group (`first_group(len)` digits) and then after every
/// further three digits, so that every group but the first has exactly three.
pub proof fn lemma_grouping_commas(d: Seq<char>)
    requires
        d.len() > 0,
        forall|i: int| 0 <= i < d.len() ==> d[i] != ',',
    ensures
        1 <= first_group(d.len()) <= 3,
        grouped(d).len() == first_group(d.len()) + 4 * ((d.len() - 1) / 3),
        forall|p: int|
            0 <= p < grouped(d).len() ==> (#[trigger] grouped(d)[p] == ',' <==> (p >= first_group(
                d.len(),
            ) && (p - first_group(d.len())) % 4 == 0)),
    decreases d.len(),
{
    let len = d.len();
    let g = (len - 1) / 3;
    let f = first_group(len);
    if len <= 3 {
        assert(g == 0);
    } else {
        let head = d.take(len - 3);
        let t = d.skip(len - 3);
        lemma_grouping_commas(head);
        assert((head.len() - 1) / 3 == g - 1);
        assert(first_group(head.len()) == f);
        let a = grouped(head);
        assert(a.len() == f + 4 * (g - 1));
        let s = grouped(d);
        assert(s == a + seq![','] + t);
        assert forall|p: int| 0 <= p < s.len() implies (#[trigger] s[p] == ',' <==> (p >= f && (p
            - f) % 4 == 0)) by {
            if p < a.len() {
                assert(s[p] == a[p]);
            } else if p == a.len() {
                assert(s[p] == ',');
                assert(p - f == 4 * (g - 1));
            } else {
                let k = p - a.len();
                assert(1 <= k <= 3);
                assert(s[p] == t[k - 1]);
                assert(t[k - 1] == d[len - 3 + k - 1]);
                assert(p - f == 4 * (g - 1) + k);
            }
        }
    }
}

/// The grouped count shows exactly the decimal digits of the count.
pub proof fn lemma_group_thousands_digits(n: u64)
    ensures
        without_commas(grouped(decimal(n as nat))) == decimal(n as nat),
        grouped(decimal(n as nat)).len() == decimal(n as nat).len() + (decimal(n as nat).len() - 1)
            / 3,
        forall|p: int|
            0 <= p < grouped(decimal(n as nat)).len() ==> (#[trigger] grouped(decimal(n as nat))[p]
                == ',' <==> (p >= first_group(decimal(n as nat).len()) && (p - first_group(
                decimal(n as nat).len(),
            )) % 4 == 0)),
        1 <= first_group(decimal(n as nat).len()) <= 3,
{
    lemma_decimal_reads_back(n as nat);
    let d = decimal(n as nat);
    assert forall|i: int| 0 <= i < d.len() implies d[i] != ',' by {
        assert(is_digit(d[i]));
    }
    lemma_grouping_keeps_digits(d);
    lemma_grouping_length(d);
    lemma_grouping_commas(d);
}

/// A sequence without commas is its own comma-free form.
proof fn lemma_no_commas_kept(d: Seq<char>)
    requires
        forall|i: int| 0 <= i < d.len() ==> d[i] != ',',
    ensures
        without_commas(d) == d,
    decreases d.len(),
{
    if d.len() > 0 {
        lemma_no_commas_kept(d.drop_last());
        assert(without_commas(d.drop_last()).push(d.last()) =~= d);
    }
}

/// Grouping `len > 0` digits inserts one comma per full group of three after
/// the first group.
pub proof fn lemma_grouping_length(d: Seq<char>)
    requires
        d.len() > 0,
    ensures
        grouped(d).len() == d.len() + (d.len() - 1) / 3,
    decreases d.len(),
{
    if d.len() > 3 {
        lemma_grouping_length(d.take(d.len() - 3));
    }
}

/// Formats an integer with thousands separators (e.g. `1240` -> `"1,240"`).
pub fn group_thousands(n: u64) -> (r: String)
    ensures
        r@ == grouped(decimal(n as nat)),
{
    let digits = decimal_digits(n);
    let len = digits.len();
    let mut out = String::new();
    let mut i: usize = 0;
    while i < len
        invariant
            len == digits@.len(),
            i <= len,
            out@ == grouping_prefix(digits@, i as nat),
        decreases len - i,
    {
        if i > 0 && (len - i) % 3 == 0 {
            push_char(&mut out, ',');
        }
        push_char(&mut out, digits[i]);
        i = i + 1;
    }
    proof {
        lemma_grouping_prefix_whole(digits@);
    }
    out
}

/// How one discovery pass ended.
pub enum DiscoveryOutcome {
    /// The pass finished with these sources.
    Found(Vec<Source>),
    /// The pass failed with this message.
    Failed(String),
    /// The pass ended without a result.
    Lost,
}

/// The launcher's state: the discovered sources, the one chosen, whether a
/// discovery pass or republishing is under way, and the status message.
pub struct Launcher {
    pub sources: Vec<Source>,
    pub selected: usize,
    pub status: String,
    pub discovering: bool,
    pub running: bool,
}

/// The status while sources are being searched for.
pub open spec fn searching_status() -> Seq<char> {
    "Searching for NDI sources\u{2026}"@
}

/// The status after a republishing run was stopped with `frames` published.
pub open spec fn stopped_status(frames: u64) -> Seq<char> {
    "Stopped \u{00B7} "@ + grouped(decimal(frames as nat)) + " frames"@
}

/// The name of the chosen source, when there is one.
pub open spec fn chosen_name(sources: Seq<Source>, selected: usize) -> Option<Seq<char>> {
    if selected < sources.len() {
        Some(sources[selected as int].name@)
    } else {
        None
    }
}

impl Launcher {
    /// The state before the first discovery pass.
    pub fn new() -> (r: Launcher)
        ensures
            r.sources@.len() == 0,
            r.selected == 0,
            r.status@.len() == 0,
            !r.discovering,
            !r.running,
    {
        Launcher {
            sources: Vec::new(),
            selected: 0,
            status: String::new(),
            discovering: false,
            running: false,
        }
    }

    /// A discovery pass starts.
    pub fn begin_discovery(&mut self)
        ensures
            final(self).discovering,
            final(self).status@ == searching_status(),
            final(self).sources@ == old(self).sources@,
            final(self).selected == old(self).selected,
            final(self).running == old(self).running,
    {
        self.discovering = true;
        self.status = String::from_str("Searching for NDI sources\u{2026}");
    }

    /// A discovery pass ended with `outcome`: found sources replace the list
    /// and the first becomes the choice; a failure or a lost pass is reported
    /// and the list is kept.
    pub fn finish_discovery(&mut self, outcome: DiscoveryOutcome)
        ensures
            !final(self).discovering,
            final(self).running == old(self).running,
            match outcome {
                DiscoveryOutcome::Found(v) => {
                    &&& final(self).sources@ == v@
                    &&& final(self).selected == 0
                    &&& final(self).status@ == (if v@.len() == 0 {
                        "No NDI sources found."@
                    } else {
                        Seq::<char>::empty()
                    })
                },
                DiscoveryOutcome::Failed(e) => {
                    &&& final(self).sources@ == old(self).sources@
                    &&& final(self).selected == old(self).selected
                    &&& final(self).status@ == "Discovery failed: "@ + e@
                },
                DiscoveryOutcome::Lost => {
                    &&& final(self).sources@ == old(self).sources@
                    &&& final(self).selected == old(self).selected
                    &&& final(self).status@ == "Discovery thread exited unexpectedly."@
                },
            },
    {
        match outcome {
            DiscoveryOutcome::Found(v) => {
                let empty = v.len() == 0;
                self.sources = v;
                self.selected = 0;
                self.discovering = false;
                if empty {
                    self.status = String::from_str("No NDI sources found.");
                } else {
                    self.status = String::new();
                }
            },
            DiscoveryOutcome::Failed(e) => {
                self.discovering = false;
                let mut msg = String::from_str("Discovery failed: ");
                msg.append(e.as_str());
                self.status = msg;
            },
            DiscoveryOutcome::Lost => {
                self.discovering = false;
                self.status = String::from_str("Discovery thread exited unexpectedly.");
            },
        }
    }

    /// True iff republishing can be started: some source was discovered.
    pub fn can_start(&self) -> (r: bool)
        ensures
            r == (self.sources@.len() > 0),
    {
        self.sources.len() > 0
    }

    /// True iff another discovery pass can be started.
    pub fn can_refresh(&self) -> (r: bool)
        ensures
            r == (!self.running && !self.discovering),
    {
        !self.running && !self.discovering
    }

    /// True iff the choice of source can be changed.
    pub fn can_choose(&self) -> (r: bool)
        ensures
            r == (!self.running && self.sources@.len() > 0),
    {
        !self.running && self.sources.len() > 0
    }

    /// Starts republishing the chosen source, if there is one: returns its
    /// index, marks the launcher running and clears the status.
    pub fn start(&mut self) -> (r: Option<usize>)
        ensures
            final(self).sources@ == old(self).sources@,
            final(self).selected == old(self).selected,
            final(self).discovering == old(self).discovering,
            old(self).selected < old(self).sources@.len() ==> {
                &&& r == Some(old(self).selected)
                &&& final(self).running
                &&& final(self).status@.len() == 0
            },
            old(self).selected >= old(self).sources@.len() ==> {
                &&& r is None
                &&& final(self).running == old(self).running
                &&& final(self).status@ == old(self).status@
            },
    {
        if self.selected < self.sources.len() {
            self.running = true;
            self.status = String::new();
            Some(self.selected)
        } else {
            None
        }
    }

    /// Republishing was stopped on request after `frames` frames.
    pub fn stopped(&mut self, frames: u64)
        ensures
            !final(self).running,
            final(self).status@ == stopped_status(frames),
            final(self).sources@ == old(self).sources@,
            final(self).selected == old(self).selected,
            final(self).discovering == old(self).discovering,
    {
        self.running = false;
        let mut msg = String::from_str("Stopped \u{00B7} ");
        let g = group_thousands(frames);
        msg.append(g.as_str());
        msg.append(" frames");
        self.status = msg;
    }

    /// Republishing ended by itself, with `error` if it failed.
    pub fn worker_exited(&mut self, error: Option<String>)
        ensures
            !final(self).running,
            final(self).status@ == (match error {
                Some(e) => "Error: "@ + e@,
                None => "Stopped."@,
            }),
            final(self).sources@ == old(self).sources@,
            final(self).selected == old(self).selected,
            final(self).discovering == old(self).discovering,
    {
        self.running = false;
        match error {
            Some(e) => {
                let mut msg = String::from_str("Error: ");
                msg.append(e.as_str());
                self.status = msg;
            },
            None => {
                self.status = String::from_str("Stopped.");
            },
        }
    }

    /// The one-line status for every state but live republishing.
    pub fn idle_label(&self) -> (r: String)
        ensures
            r@ == idle_text(self),
    {
        if self.discovering {
            String::from_str("Searching\u{2026}")
        } else if self.sources.len() == 0 {
            String::from_str("No NDI sources found")
        } else if self.status.unicode_len() == 0 {
            String::from_str("Ready")
        } else {
            self.status.clone()
        }
    }

    /// The name of the chosen source.
    fn chosen(&self) -> (r: Option<&String>)
        ensures
            match r {
                Some(n) => chosen_name(self.sources@, self.selected) == Some(n@),
                None => chosen_name(self.sources@, self.selected) is None,
            },
    {
        if self.selected < self.sources.len() {
            Some(&self.sources[self.selected].name)
        } else {
            None
        }
    }

    /// The name of what is published, or `?` when no source is chosen.
    fn published(&self) -> (r: String)
        ensures
            r@ == published_name(self.sources@, self.selected),
    {
        match self.chosen() {
            Some(n) => n.clone(),
            None => String::from_str("?"),
        }
    }

    /// The one-line summary: the live count and what is published while
    /// running, the idle label otherwise.
    pub fn info_line(&self, frames: u64, platform: Platform) -> (r: String)
        ensures
            r@ == info_text(self, frames, platform),
    {
        if self.running {
            let mut line = live_text(frames);
            line.append(" \u{00B7} ");
            line.append(output_kind(platform));
            line.append(" \"");
            let name = self.published();
            line.append(name.as_str());
            line.append("\"");
            line
        } else {
            self.idle_label()
        }
    }

    /// The status lines: while running, the live count and what is published
    /// under which name; otherwise the idle label behind a hollow dot.
    pub fn status_lines(&self, frames: u64, platform: Platform) -> (r: Vec<String>)
        ensures
            self.running ==> r@.len() == 2 && r@[0]@ == live_line(frames) && r@[1]@
                == "Publishing as "@ + output_kind_name(platform) + " \""@ + published_name(
                self.sources@,
                self.selected,
            ) + "\""@,
            !self.running ==> r@.len() == 1 && r@[0]@ == "\u{25CB} "@ + idle_text(self),
    {
        let mut lines: Vec<String> = Vec::new();
        if self.running {
            lines.push(live_text(frames));
            let mut second = String::from_str("Publishing as ");
            second.append(output_kind(platform));
            second.append(" \"");
            let name = self.published();
            second.append(name.as_str());
            second.append("\"");
            lines.push(second);
        } else {
            let mut line = String::from_str("\u{25CB} ");
            let idle = self.idle_label();
            line.append(idle.as_str());
            lines.push(line);
        }
        lines
    }

    /// The status item of the tray menu: the product name and the summary.
    pub fn tray_text(&self, frames: u64, platform: Platform) -> (r: String)
        ensures
            r@ == "Bucatini \u{2014} "@ + info_text(self, frames, platform),
    {
        let mut text = String::from_str("Bucatini \u{2014} ");
        let info = self.info_line(frames, platform);
        text.append(info.as_str());
        text
    }

    /// The label of the source chooser: the chosen source's name, or `(none)`.
    pub fn source_label(&self) -> (r: String)
        ensures
            r@ == (match chosen_name(self.sources@, self.selected) {
                Some(n) => n,
                None => "(none)"@,
            }),
    {
        match self.chosen() {
            Some(n) => n.clone(),
            None => String::from_str("(none)"),
        }
    }
}

/// The idle label of `l` (see `Launcher::idle_label`).
pub open spec fn idle_text(l: &Launcher) -> Seq<char> {
    if l.discovering {
        "Searching\u{2026}"@
    } else if l.sources@.len() == 0 {
        "No NDI sources found"@
    } else if l.status@.len() == 0 {
        "Ready"@
    } else {
        l.status@
    }
}

/// The one-line summary of `l` (see `Launcher::info_line`).
pub open spec fn info_text(l: &Launcher, frames: u64, platform: Platform) -> Seq<char> {
    if l.running {
        live_line(frames) + " \u{00B7} "@ + output_kind_name(platform) + " \""@ + published_name(
            l.sources@,
            l.selected,
        ) + "\""@
    } else {
        idle_text(l)
    }
}

/// `"Live · <frames> frames"`, the frame count grouped by thousands.
pub fn live_text(frames: u64) -> (r: String)
    ensures
        r@ == live_line(frames),
{
    let mut line = String::from_str("Live \u{00B7} ");
    let g = group_thousands(frames);
    line.append(g.as_str());
    line.append(" frames");
    line
}

/// The live line: `"Live · <frames> frames"`.
pub open spec fn live_line(frames: u64) -> Seq<char> {
    "Live \u{00B7} "@ + grouped(decimal(frames as nat)) + " frames"@
}

/// The quoted name of what is published, or `"?"` when no source is chosen.
pub open spec fn published_name(sources: Seq<Source>, selected: usize) -> Seq<char> {
    match chosen_name(sources, selected) {
        Some(n) => n,
        None => "?"@,
    }
}

/// What is published is the selected source: while a source is selected its
/// own name, otherwise `?`.
pub proof fn lemma_published_is_selected(sources: Seq<Source>, selected: usize)
    ensures
        selected < sources.len() ==> published_name(sources, selected)
            == sources[selected as int].name@,
        selected >= sources.len() ==> published_name(sources, selected) == "?"@,
{
}

/// While republishing with a source selected, the summary and the second
/// status line name that very source, quoted, after the output kind.
pub proof fn lemma_running_names_selected(l: &Launcher, frames: u64, platform: Platform)
    requires
        l.running,
        l.selected < l.sources@.len(),
    ensures
        info_text(l, frames, platform) == live_line(frames) + " \u{00B7} "@ + output_kind_name(
            platform,
        ) + " \""@ + l.sources@[l.selected as int].name@ + "\""@,
        published_name(l.sources@, l.selected) == l.sources@[l.selected as int].name@,
{
    lemma_published_is_selected(l.sources@, l.selected);
}

/// The side, in pixels, of the square tray icon.
pub const TRAY_ICON_SIZE: u32 = 32;

/// The `c`-th channel (RGBA) of the accent blue the tray icon is filled with.
pub open spec fn accent_channel(c: int) -> u8 {
    if c == 0 {
        0x39
    } else if c == 1 {
        0x96
    } else {
        0xFF
    }
}

/// The RGBA pixels of the tray icon: a `TRAY_ICON_SIZE`-square of solid
/// accent blue, row by row.
pub fn tray_icon_rgba() -> (r: Vec<u8>)
    ensures
        r@.len() == TRAY_ICON_SIZE * TRAY_ICON_SIZE * 4,
        forall|i: int| 0 <= i < r@.len() ==> #[trigger] r@[i] == accent_channel(i % 4),
{
    let pixels: usize = (TRAY_ICON_SIZE * TRAY_ICON_SIZE) as usize;
    let mut rgba: Vec<u8> = Vec::new();
    let mut p: usize = 0;
    while p < pixels
        invariant
            pixels == TRAY_ICON_SIZE * TRAY_ICON_SIZE,
            p <= pixels,
            rgba@.len() == 4 * p,
            forall|i: int| 0 <= i < rgba@.len() ==> #[trigger] rgba@[i] == accent_channel(i % 4),
        decreases pixels - p,
    {
        rgba.push(0x39);
        rgba.push(0x96);
        rgba.push(0xFF);
        rgba.push(0xFF);
        p = p + 1;
    }
    rgba
}

} // verus!
