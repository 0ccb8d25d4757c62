//! The display listing of the control utility, and the identities read from it.
//!
//! The listing is line-oriented. A line `Display <n>` opens the record of a
//! display; the labelled lines that follow fill its fields; every other line
//! is passed over, so that fields this parser does not know do no harm.

use crate::text::{
    chars_of, first_word, first_word_slice, lemma_span, lines, opt_text, push_char,
    split_first_line, string_of, strip_prefix, trim, trim_slice, Stop,
};
use vstd::prelude::*;
use vstd::string::*;

verus! {

/// One display as the listing describes it.
///
/// `display_key` addresses the display in calls of the control utility and
/// may change from one listing to the next. `id` is derived from the key,
/// the model and the serial number alone (see [`stable_id`]), so that the
/// same listing always yields the same identities.
#[derive(Debug)]
pub struct DisplayInfo {
    pub id: String,
    pub display_key: String,
    pub model: Option<String>,
    pub mfg: Option<String>,
    pub serial: Option<String>,
    pub bus: Option<String>,
}

/// What a [`DisplayInfo`] holds, as plain text.
pub ghost struct DisplayInfoView {
    pub id: Seq<char>,
    pub display_key: Seq<char>,
    pub model: Option<Seq<char>>,
    pub mfg: Option<Seq<char>>,
    pub serial: Option<Seq<char>>,
    pub bus: Option<Seq<char>>,
}

/// The text of an optional field, empty where the field is absent.
pub open spec fn or_empty(o: Option<Seq<char>>) -> Seq<char> {
    match o {
        Some(s) => s,
        None => Seq::empty(),
    }
}

/// The identity of a display: key, model and serial number, each followed
/// by a colon but the last, an absent field counting as empty.
pub open spec fn stable_id(
    key: Seq<char>,
    model: Option<Seq<char>>,
    serial: Option<Seq<char>>,
) -> Seq<char> {
    key + seq![':'] + or_empty(model) + seq![':'] + or_empty(serial)
}

impl View for DisplayInfo {
    type V = DisplayInfoView;

    open spec fn view(&self) -> DisplayInfoView {
        DisplayInfoView {
            id: self.id@,
            display_key: self.display_key@,
            model: opt_text(self.model),
            mfg: opt_text(self.mfg),
            serial: opt_text(self.serial),
            bus: opt_text(self.bus),
        }
    }
}

impl DisplayInfoView {
    /// Whether `id` is the identity that the other fields determine.
    pub open spec fn wf(self) -> bool {
        self.id == stable_id(self.display_key, self.model, self.serial)
    }

    /// The same display under the identity that its fields determine.
    pub open spec fn identified(self) -> DisplayInfoView {
        DisplayInfoView { id: stable_id(self.display_key, self.model, self.serial), ..self }
    }
}

impl DisplayInfo {
    /// Whether `id` is the identity that the other fields determine.
    pub open spec fn wf(&self) -> bool {
        self@.wf()
    }

    /// A display with the given fields, under the identity they determine.
    pub fn new(
        display_key: String,
        model: Option<String>,
        mfg: Option<String>,
        serial: Option<String>,
        bus: Option<String>,
    ) -> (d: DisplayInfo)
        ensures
            d.wf(),
            d@.display_key == display_key@,
            d@.model == opt_text(model),
            d@.mfg == opt_text(mfg),
            d@.serial == opt_text(serial),
            d@.bus == opt_text(bus),
    {
        let mut id = display_key.clone();
        push_char(&mut id, ':');
        match &model {
            Some(m) => id.append(m.as_str()),
            None => {},
        }
        assert(id@ =~= display_key@ + seq![':'] + or_empty(opt_text(model)));
        push_char(&mut id, ':');
        match &serial {
            Some(s) => id.append(s.as_str()),
            None => {},
        }
        assert(id@ =~= stable_id(display_key@, opt_text(model), opt_text(serial)));
        DisplayInfo { id, display_key, model, mfg, serial, bus }
    }
}

impl Clone for DisplayInfo {
    /// A copy of this display.
    fn clone(&self) -> (d: DisplayInfo)
        ensures
            d == *self,
    {
        DisplayInfo {
            id: self.id.clone(),
            display_key: self.display_key.clone(),
            model: self.model.clone(),
            mfg: self.mfg.clone(),
            serial: self.serial.clone(),
            bus: self.bus.clone(),
        }
    }
}

/// The views of a list of displays, in order.
pub open spec fn views(ds: Seq<DisplayInfo>) -> Seq<DisplayInfoView> {
    ds.map_values(|d: DisplayInfo| d@)
}

/// What one line of the listing says.
pub ghost enum Line {
    /// `Display <key>`: a new record begins.
    Start(Seq<char>),
    /// `I2C bus: <bus>`.
    Bus(Seq<char>),
    /// `Model: <model>`.
    Model(Seq<char>),
    /// `Mfg id: <manufacturer>` or `Vendor: <manufacturer>`.
    Mfg(Seq<char>),
    /// `Serial number: <serial>` or `Serial: <serial>`.
    Serial(Seq<char>),
    /// Anything else.
    Other,
}

/// What follows the prefix `p` in `t`.
pub open spec fn after(t: Seq<char>, p: Seq<char>) -> Seq<char> {
    t.skip(p.len() as int)
}

/// What `line` says, read without the white space around it. The labels
/// are tried in the order written here.
pub open spec fn classify(line: Seq<char>) -> Line {
    let t = trim(line);
    if "Display "@.is_prefix_of(t) {
        Line::Start(first_word(after(t, "Display "@)))
    } else if "I2C bus:"@.is_prefix_of(t) {
        Line::Bus(trim(after(t, "I2C bus:"@)))
    } else if "Model:"@.is_prefix_of(t) {
        Line::Model(trim(after(t, "Model:"@)))
    } else if "Mfg id:"@.is_prefix_of(t) {
        Line::Mfg(trim(after(t, "Mfg id:"@)))
    } else if "Vendor:"@.is_prefix_of(t) {
        Line::Mfg(trim(after(t, "Vendor:"@)))
    } else if "Serial number:"@.is_prefix_of(t) {
        Line::Serial(trim(after(t, "Serial number:"@)))
    } else if "Serial:"@.is_prefix_of(t) {
        Line::Serial(trim(after(t, "Serial:"@)))
    } else {
        Line::Other
    }
}

/// A record as a start line opens it: the key, and no field yet.
pub open spec fn fresh(key: Seq<char>) -> DisplayInfoView {
    DisplayInfoView { id: key, display_key: key, model: None, mfg: None, serial: None, bus: None }
}

/// The record `d` after a line that says `line`.
pub open spec fn filled(d: DisplayInfoView, line: Line) -> DisplayInfoView {
    match line {
        Line::Bus(v) => DisplayInfoView { bus: Some(v), ..d },
        Line::Model(v) => DisplayInfoView { model: Some(v), ..d },
        Line::Mfg(v) => DisplayInfoView { mfg: Some(v), ..d },
        Line::Serial(v) => DisplayInfoView { serial: Some(v), ..d },
        _ => d,
    }
}

/// The records `acc` after a line that says `line`: a start line opens a
/// new record at the end, a field line fills the last record, and a field
/// line in front of the first record is lost.
pub open spec fn absorb(acc: Seq<DisplayInfoView>, line: Line) -> Seq<DisplayInfoView> {
    match line {
        Line::Start(key) => acc.push(fresh(key)),
        _ => if acc.len() == 0 {
            acc
        } else {
            acc.update(acc.len() - 1, filled(acc.last(), line))
        },
    }
}

/// The records `acc` after the lines `ls`, read first to last.
pub open spec fn scan(acc: Seq<DisplayInfoView>, ls: Seq<Seq<char>>) -> Seq<DisplayInfoView>
    decreases ls.len(),
{
    if ls.len() == 0 {
        acc
    } else {
        scan(absorb(acc, classify(ls[0])), ls.drop_first())
    }
}

/// The displays that the listing `text` describes, in the order of their
/// start lines, each under the identity that its fields determine.
pub open spec fn parse_detect(text: Seq<char>) -> Seq<DisplayInfoView> {
    scan(Seq::empty(), lines(text)).map_values(|d: DisplayInfoView| d.identified())
}

/// The keys of the start lines among `ls`, in order.
pub open spec fn start_keys(ls: Seq<Seq<char>>) -> Seq<Seq<char>>
    decreases ls.len(),
{
    if ls.len() == 0 {
        Seq::empty()
    } else {
        match classify(ls[0]) {
            Line::Start(key) => seq![key] + start_keys(ls.drop_first()),
            _ => start_keys(ls.drop_first()),
        }
    }
}

/// The keys of a list of records, in order.
pub open spec fn keys_of(ds: Seq<DisplayInfoView>) -> Seq<Seq<char>> {
    ds.map_values(|d: DisplayInfoView| d.display_key)
}

/// The records of `ds`, each under the identity that its fields determine.
pub open spec fn identified_all(ds: Seq<DisplayInfoView>) -> Seq<DisplayInfoView> {
    ds.map_values(|d: DisplayInfoView| d.identified())
}

/// The labels that open the lines this parser knows.
struct Labels {
    display: Vec<char>,
    bus: Vec<char>,
    model: Vec<char>,
    mfg: Vec<char>,
    vendor: Vec<char>,
    serial_number: Vec<char>,
    serial: Vec<char>,
}

impl Labels {
    spec fn wf(&self) -> bool {
        &&& self.display@ == "Display "@
        &&& self.bus@ == "I2C bus:"@
        &&& self.model@ == "Model:"@
        &&& self.mfg@ == "Mfg id:"@
        &&& self.vendor@ == "Vendor:"@
        &&& self.serial_number@ == "Serial number:"@
        &&& self.serial@ == "Serial:"@
    }

    fn new() -> (l: Labels)
        ensures
            l.wf(),
    {
        Labels {
            display: chars_of("Display "),
            bus: chars_of("I2C bus:"),
            model: chars_of("Model:"),
            mfg: chars_of("Mfg id:"),
            vendor: chars_of("Vendor:"),
            serial_number: chars_of("Serial number:"),
            serial: chars_of("Serial:"),
        }
    }
}

/// What one line of the listing says, as slices of the line.
enum LineText<'a> {
    Start(&'a [char]),
    Bus(&'a [char]),
    Model(&'a [char]),
    Mfg(&'a [char]),
    Serial(&'a [char]),
    Other,
}

impl<'a> LineText<'a> {
    spec fn line(self) -> Line {
        match self {
            LineText::Start(k) => Line::Start(k@),
            LineText::Bus(v) => Line::Bus(v@),
            LineText::Model(v) => Line::Model(v@),
            LineText::Mfg(v) => Line::Mfg(v@),
            LineText::Serial(v) => Line::Serial(v@),
            LineText::Other => Line::Other,
        }
    }
}

/// Reads one line of the listing.
fn classify_line<'a>(line: &'a [char], labels: &Labels) -> (r: LineText<'a>)
    requires
        labels.wf(),
    ensures
        r.line() == classify(line@),
{
    let t = trim_slice(line);
    if let Some(rest) = strip_prefix(t, labels.display.as_slice()) {
        LineText::Start(first_word_slice(rest))
    } else if let Some(rest) = strip_prefix(t, labels.bus.as_slice()) {
        LineText::Bus(trim_slice(rest))
    } else if let Some(rest) = strip_prefix(t, labels.model.as_slice()) {
        LineText::Model(trim_slice(rest))
    } else if let Some(rest) = strip_prefix(t, labels.mfg.as_slice()) {
        LineText::Mfg(trim_slice(rest))
    } else if let Some(rest) = strip_prefix(t, labels.vendor.as_slice()) {
        LineText::Mfg(trim_slice(rest))
    } else if let Some(rest) = strip_prefix(t, labels.serial_number.as_slice()) {
        LineText::Serial(trim_slice(rest))
    } else if let Some(rest) = strip_prefix(t, labels.serial.as_slice()) {
        LineText::Serial(trim_slice(rest))
    } else {
        LineText::Other
    }
}

/// The record `d` after a field line.
fn fill(d: DisplayInfo, line: LineText) -> (r: DisplayInfo)
    requires
        !(line is Start),
    ensures
        r@ == filled(d@, line.line()),
{
    let mut d = d;
    match line {
        LineText::Bus(v) => {
            d.bus = Some(string_of(v));
        },
        LineText::Model(v) => {
            d.model = Some(string_of(v));
        },
        LineText::Mfg(v) => {
            d.mfg = Some(string_of(v));
        },
        LineText::Serial(v) => {
            d.serial = Some(string_of(v));
        },
        _ => {},
    }
    d
}

/// Moves the record in progress, if there is one, to the finished records,
/// under the identity that its fields determine.
fn flush(displays: &mut Vec<DisplayInfo>, current: Option<DisplayInfo>)
    ensures
        views(final(displays)@) == match current {
            Some(d) => views(old(displays)@).push(d@.identified()),
            None => views(old(displays)@),
        },
{
    if let Some(d) = current {
        let done = DisplayInfo::new(d.display_key, d.model, d.mfg, d.serial, d.bus);
        displays.push(done);
        assert(views(displays@) =~= views(old(displays)@).push(d@.identified()));
    }
}

/// Reads the display listing of the control utility.
///
/// Returns one record for each start line, in the order of the start lines,
/// with the fields that the lines after it gave; a record whose start line
/// is followed by no field line is returned with all fields absent. Lines
/// that are not understood are passed over.
pub fn parse_detect_text(output: &str) -> (displays: Vec<DisplayInfo>)
    ensures
        views(displays@) == parse_detect(output@),
        forall|i: int| 0 <= i < displays@.len() ==> (#[trigger] displays@[i]).wf(),
{
    let chars = chars_of(output);
    let labels = Labels::new();
    let mut rest: &[char] = chars.as_slice();
    let mut displays: Vec<DisplayInfo> = Vec::new();
    let mut current: Option<DisplayInfo> = None;
    let ghost mut acc: Seq<DisplayInfoView> = Seq::empty();
    while rest.len() > 0
        invariant
            labels.wf(),
            scan(acc, lines(rest@)) == scan(Seq::empty(), lines(output@)),
            match current {
                Some(d) => acc.len() > 0 && d@ == acc.last() && views(displays@) == identified_all(
                    acc.drop_last(),
                ),
                None => acc.len() == 0 && displays@.len() == 0,
            },
        decreases rest@.len(),
    {
        let (line, tail) = split_first_line(rest);
        let what = classify_line(line, &labels);
        proof {
            lemma_span(rest@, Stop::LineFeed);
            assert(lines(rest@).drop_first() =~= lines(tail@));
        }
        match what {
            LineText::Start(key) => {
                flush(&mut displays, current);
                let key = string_of(key);
                current = Some(
                    DisplayInfo {
                        id: key.clone(),
                        display_key: key,
                        model: None,
                        mfg: None,
                        serial: None,
                        bus: None,
                    },
                );
                proof {
                    assert(views(displays@) =~= identified_all(acc));
                    assert(acc.push(fresh(key@)).drop_last() =~= acc);
                    acc = acc.push(fresh(key@));
                }
            },
            _ => {
                current = match current {
                    Some(d) => Some(fill(d, what)),
                    None => None,
                };
                proof {
                    if acc.len() > 0 {
                        let next = acc.update(acc.len() - 1, filled(acc.last(), what.line()));
                        assert(next.drop_last() =~= acc.drop_last());
                        acc = next;
                    }
                }
            },
        }
        rest = tail;
    }
    flush(&mut displays, current);
    proof {
        assert(views(displays@) =~= identified_all(acc));
        lemma_parsed_identities(output@);
        assert forall|i: int| 0 <= i < displays@.len() implies (#[trigger] displays@[i]).wf() by {
            assert(views(displays@)[i] == displays@[i]@);
        }
    }
    displays
}

/// Every record that the parser returns carries the identity that its key,
/// model and serial number determine.
pub proof fn lemma_parsed_identities(text: Seq<char>)
    ensures
        forall|i: int| 0 <= i < parse_detect(text).len() ==> (#[trigger] parse_detect(text)[i]).wf(),
{
}

/// Two readings of the same listing agree: they return as many records,
/// and record for record the same identity.
pub proof fn lemma_same_listing_same_identities(
    a: Seq<char>,
    b: Seq<char>,
    x: Seq<DisplayInfo>,
    y: Seq<DisplayInfo>,
)
    requires
        a == b,
        views(x) == parse_detect(a),
        views(y) == parse_detect(b),
    ensures
        x.len() == y.len(),
        forall|i: int| 0 <= i < x.len() ==> (#[trigger] x[i])@.id == y[i]@.id,
{
    assert(views(x).len() == x.len());
    assert(views(y).len() == y.len());
    assert forall|i: int| 0 <= i < x.len() implies (#[trigger] x[i])@.id == y[i]@.id by {
        assert(views(x)[i] == x[i]@);
        assert(views(y)[i] == y[i]@);
    }
}

/// Two displays with the same model and serial number, an absent field
/// counting as empty, have the same identity exactly if they have the same
/// key: the other fields and the place in the listing do not enter it.
pub proof fn lemma_identity_collision(a: DisplayInfoView, b: DisplayInfoView)
    requires
        a.wf(),
        b.wf(),
        or_empty(a.model) == or_empty(b.model),
        or_empty(a.serial) == or_empty(b.serial),
    ensures
        a.id == b.id <==> a.display_key == b.display_key,
{
    if a.id == b.id {
        assert(a.id.len() == b.id.len());
        assert forall|i: int| 0 <= i < a.display_key.len() implies a.display_key[i]
            == b.display_key[i] by {
            assert(a.id[i] == a.display_key[i]);
            assert(b.id[i] == b.display_key[i]);
        }
        assert(a.display_key =~= b.display_key);
    }
}

/// Reading the lines `ls` adds to the keys of `acc` the keys of the start
/// lines among `ls`, in order, and changes no key that was there.
proof fn lemma_scan_keys(acc: Seq<DisplayInfoView>, ls: Seq<Seq<char>>)
    ensures
        keys_of(scan(acc, ls)) == keys_of(acc) + start_keys(ls),
    decreases ls.len(),
{
    if ls.len() == 0 {
        assert(keys_of(acc) + start_keys(ls) =~= keys_of(acc));
    } else {
        let next = absorb(acc, classify(ls[0]));
        lemma_scan_keys(next, ls.drop_first());
        match classify(ls[0]) {
            Line::Start(key) => {
                assert(keys_of(next) =~= keys_of(acc) + seq![key]);
                assert(keys_of(acc) + start_keys(ls) =~= keys_of(next) + start_keys(
                    ls.drop_first(),
                ));
            },
            _ => {
                assert(keys_of(next) =~= keys_of(acc));
            },
        }
    }
}

/// The parser returns exactly one record for each start line of the
/// listing, in the order of the start lines: the keys of the records are
/// the keys of the start lines.
pub proof fn lemma_one_record_per_start_line(text: Seq<char>)
    ensures
        keys_of(parse_detect(text)) == start_keys(lines(text)),
        parse_detect(text).len() == start_keys(lines(text)).len(),
{
    lemma_scan_keys(Seq::empty(), lines(text));
    assert(keys_of(Seq::<DisplayInfoView>::empty()) + start_keys(lines(text)) =~= start_keys(
        lines(text),
    ));
    assert(keys_of(parse_detect(text)) =~= keys_of(scan(Seq::empty(), lines(text))));
}

} // verus!
