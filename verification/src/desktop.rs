//! Desktop entries: the files that describe the sessions on offer, and the
//! command lines written in them.

use crate::env::{key_before, key_order, lemma_names_are_ordered, KeyOrder};
use crate::text::{
    ascii_lowercase, ascii_lowered, chars_of, is_space, lowercase, pieces, same_text, split,
    string_of, to_lowercase, trim, trimmed, white_space, words,
};
use vstd::prelude::*;

verus! {

// ---------------------------------------------------------------------------
// Command lines
// ---------------------------------------------------------------------------

/// A word of a command line from index `i` on, without its field codes: `%%`
/// stands for a percent sign, `%` with any other character after it for
/// nothing, and so does a `%` at the very end.
pub open spec fn stripped_from(s: Seq<char>, i: int) -> Seq<char>
    decreases s.len() - i,
{
    if i < 0 || i >= s.len() {
        Seq::empty()
    } else if s[i] != '%' {
        seq![s[i]] + stripped_from(s, i + 1)
    } else if i + 1 >= s.len() {
        Seq::empty()
    } else if s[i + 1] == '%' {
        seq!['%'] + stripped_from(s, i + 2)
    } else {
        stripped_from(s, i + 2)
    }
}

/// A word of a command line without its field codes.
pub open spec fn stripped(s: Seq<char>) -> Seq<char> {
    stripped_from(s, 0)
}

fn strip_chars(v: &Vec<char>) -> (out: Vec<char>)
    ensures
        out@ == stripped(v@),
{
    let mut out: Vec<char> = Vec::new();
    let mut i: usize = 0;
    assert(out@ + stripped_from(v@, 0) == stripped(v@));
    while i < v.len()
        invariant
            i <= v.len(),
            out@ + stripped_from(v@, i as int) == stripped(v@),
        decreases v.len() - i,
    {
        let ghost before = out@;
        if v[i] != '%' {
            out.push(v[i]);
            assert(out@ + stripped_from(v@, i + 1) == before + (seq![v@[i as int]] + stripped_from(
                v@,
                i + 1,
            )));
            i += 1;
        } else if i + 1 >= v.len() {
            i += 1;
        } else if v[i + 1] == '%' {
            out.push('%');
            assert(out@ + stripped_from(v@, i + 2) == before + (seq!['%'] + stripped_from(
                v@,
                i + 2,
            )));
            i += 2;
        } else {
            i += 2;
        }
    }
    assert(out@ + Seq::<char>::empty() == out@);
    out
}

/// Removes the field codes from a word of a command line.
pub fn strip_field_codes(value: &str) -> (out: String)
    ensures
        out@ == stripped(value@),
{
    let v = chars_of(value);
    let cleaned = strip_chars(&v);
    let out = string_of(&cleaned, 0, cleaned.len());
    assert(cleaned@.subrange(0, cleaned@.len() as int) == cleaned@);
    out
}

/// How far the reading of a command line has come.
pub struct Reading {
    /// The words that are complete.
    pub done: Seq<Seq<char>>,
    /// The word being read.
    pub word: Seq<char>,
    /// Inside single quotes.
    pub single: bool,
    /// Inside double quotes.
    pub double: bool,
    /// The next character is taken as it is.
    pub escape: bool,
}

/// The reading after one more character. A backslash outside single quotes
/// makes the next character count as itself; a quote of one kind outside
/// quotes of the other kind opens or closes; white space outside quotes ends
/// a word; everything else belongs to the word.
pub open spec fn read_char(r: Reading, c: char) -> Reading {
    if r.escape {
        Reading { word: r.word.push(c), escape: false, ..r }
    } else if c == '\\' && !r.single {
        Reading { escape: true, ..r }
    } else if c == '\'' && !r.double {
        Reading { single: !r.single, ..r }
    } else if c == '"' && !r.single {
        Reading { double: !r.double, ..r }
    } else if white_space(c) && !r.single && !r.double {
        if r.word.len() > 0 {
            Reading { done: r.done.push(r.word), word: Seq::empty(), ..r }
        } else {
            r
        }
    } else {
        Reading { word: r.word.push(c), ..r }
    }
}

/// The reading after all of `s`.
pub open spec fn read_all(s: Seq<char>) -> Reading
    decreases s.len(),
{
    if s.len() == 0 {
        Reading {
            done: Seq::empty(),
            word: Seq::empty(),
            single: false,
            double: false,
            escape: false,
        }
    } else {
        read_char(read_all(s.drop_last()), s.last())
    }
}

/// The words as they were quoted, before field codes are removed.
pub open spec fn quoted_words(s: Seq<char>) -> Seq<Seq<char>> {
    let r = read_all(s);
    if r.word.len() > 0 {
        r.done.push(r.word)
    } else {
        r.done
    }
}

/// The words without their field codes, and without those that are empty
/// then.
pub open spec fn cleaned(list: Seq<Seq<char>>) -> Seq<Seq<char>>
    decreases list.len(),
{
    if list.len() == 0 {
        Seq::empty()
    } else if stripped(list.last()).len() == 0 {
        cleaned(list.drop_last())
    } else {
        cleaned(list.drop_last()).push(stripped(list.last()))
    }
}

/// The argument vector that a command line of a desktop entry stands for.
pub open spec fn exec_words(raw: Seq<char>) -> Seq<Seq<char>> {
    cleaned(quoted_words(raw))
}

fn read_words(v: &Vec<char>) -> (out: Vec<String>)
    ensures
        out.deep_view() == quoted_words(v@),
{
    let mut done: Vec<String> = Vec::new();
    let mut word: Vec<char> = Vec::new();
    let mut single = false;
    let mut double = false;
    let mut escape = false;
    let mut i: usize = 0;
    assert(done.deep_view() =~= Seq::<Seq<char>>::empty());
    assert(v@.take(0).len() == 0);
    while i < v.len()
        invariant
            i <= v.len(),
            read_all(v@.take(i as int)) == (Reading {
                done: done.deep_view(),
                word: word@,
                single,
                double,
                escape,
            }),
        decreases v.len() - i,
    {
        let ghost upto = v@.take(i + 1);
        assert(upto.drop_last() == v@.take(i as int));
        assert(upto.last() == v@[i as int]);
        let c = v[i];
        if escape {
            word.push(c);
            escape = false;
        } else if c == '\\' && !single {
            escape = true;
        } else if c == '\'' && !double {
            single = !single;
        } else if c == '"' && !single {
            double = !double;
        } else if is_space(c) && !single && !double {
            if word.len() > 0 {
                let ghost prev = done.deep_view();
                let full = string_of(&word, 0, word.len());
                assert(word@.subrange(0, word@.len() as int) == word@);
                done.push(full);
                assert(done.deep_view() =~= prev.push(full@));
                word = Vec::new();
            }
        } else {
            word.push(c);
        }
        i += 1;
    }
    assert(v@.take(v.len() as int) == v@);
    if word.len() > 0 {
        let ghost prev = done.deep_view();
        let full = string_of(&word, 0, word.len());
        assert(word@.subrange(0, word@.len() as int) == word@);
        done.push(full);
        assert(done.deep_view() =~= prev.push(full@));
    }
    done
}

/// Reads the command line of a desktop entry into its argument vector.
pub fn parse_exec(raw: &str) -> (out: Vec<String>)
    ensures
        out.deep_view() == exec_words(raw@),
{
    let v = chars_of(raw);
    let quoted = read_words(&v);
    let mut out: Vec<String> = Vec::new();
    let mut i: usize = 0;
    assert(quoted.deep_view().take(0) == Seq::<Seq<char>>::empty());
    assert(out.deep_view() =~= Seq::<Seq<char>>::empty());
    while i < quoted.len()
        invariant
            i <= quoted.len(),
            out.deep_view() == cleaned(quoted.deep_view().take(i as int)),
        decreases quoted.len() - i,
    {
        let ghost upto = quoted.deep_view().take(i + 1);
        assert(upto.drop_last() == quoted.deep_view().take(i as int));
        assert(upto.last() == quoted@[i as int]@);
        let text = strip_field_codes(quoted[i].as_str());
        if !text.as_str().is_empty() {
            let ghost prev = out.deep_view();
            out.push(text);
            assert(out.deep_view() =~= prev.push(text@));
        }
        i += 1;
    }
    assert(quoted.deep_view().take(quoted.len() as int) == quoted.deep_view());
    out
}

// ---------------------------------------------------------------------------
// Entries
// ---------------------------------------------------------------------------

/// What the words `1`, `true` and `yes` stand for, in any ASCII case.
pub open spec fn truth(value: Seq<char>) -> bool {
    let lowered = ascii_lowered(value);
    lowered == "1"@ || lowered == "true"@ || lowered == "yes"@
}

/// Reads a truth value.
pub fn parse_bool(value: &str) -> (b: bool)
    ensures
        b == truth(value@),
{
    let v = chars_of(value);
    let lowered = ascii_lowercase(&v);
    let one = chars_of("1");
    let yes = chars_of("yes");
    let tru = chars_of("true");
    crate::text::same_chars(&lowered, &one) || crate::text::same_chars(&lowered, &tru)
        || crate::text::same_chars(&lowered, &yes)
}

/// What was read of a desktop entry.
#[derive(Clone, Debug, PartialEq, Eq)]
pub struct DesktopFields {
    /// The lines read last belong to the group `[Desktop Entry]`.
    pub in_entry: bool,
    pub name: Option<String>,
    pub exec_line: Option<String>,
    pub hidden: bool,
    pub nodisplay: bool,
    pub try_exec: Option<String>,
}

/// [`DesktopFields`] as plain values.
pub struct FieldsView {
    pub in_entry: bool,
    pub name: Option<Seq<char>>,
    pub exec_line: Option<Seq<char>>,
    pub hidden: bool,
    pub nodisplay: bool,
    pub try_exec: Option<Seq<char>>,
}

impl View for DesktopFields {
    type V = FieldsView;

    open spec fn view(&self) -> FieldsView {
        FieldsView {
            in_entry: self.in_entry,
            name: crate::frame::text_of(self.name),
            exec_line: crate::frame::text_of(self.exec_line),
            hidden: self.hidden,
            nodisplay: self.nodisplay,
            try_exec: crate::frame::text_of(self.try_exec),
        }
    }
}

/// Nothing read yet.
pub open spec fn no_fields() -> FieldsView {
    FieldsView {
        in_entry: false,
        name: None,
        exec_line: None,
        hidden: false,
        nodisplay: false,
        try_exec: None,
    }
}

/// Where the first `=` of a line stands, from index `i` on; the length of the
/// line if there is none.
pub open spec fn equals_at(line: Seq<char>, i: int) -> int
    decreases line.len() - i,
{
    if i < 0 || i >= line.len() {
        line.len() as int
    } else if line[i] == '=' {
        i
    } else {
        equals_at(line, i + 1)
    }
}

/// What was read after one more line. Blank lines and comments count for
/// nothing. A line in square brackets opens a group. Within the group
/// `[Desktop Entry]`, a line `key=value` sets the field that the key names;
/// of two lines for one field the later counts.
pub open spec fn read_line(f: FieldsView, raw: Seq<char>) -> FieldsView {
    let line = trimmed(raw);
    if line.len() == 0 || line[0] == '#' {
        f
    } else if line[0] == '[' && line.last() == ']' {
        FieldsView { in_entry: line == "[Desktop Entry]"@, ..f }
    } else if !f.in_entry {
        f
    } else {
        let at = equals_at(line, 0);
        if at >= line.len() {
            f
        } else {
            let key = trimmed(line.subrange(0, at));
            let value = trimmed(line.subrange(at + 1, line.len() as int));
            if key == "Name"@ {
                FieldsView { name: Some(value), ..f }
            } else if key == "Exec"@ {
                FieldsView { exec_line: Some(value), ..f }
            } else if key == "Hidden"@ {
                FieldsView { hidden: truth(value), ..f }
            } else if key == "NoDisplay"@ {
                FieldsView { nodisplay: truth(value), ..f }
            } else if key == "TryExec"@ {
                FieldsView { try_exec: Some(value), ..f }
            } else {
                f
            }
        }
    }
}

/// What was read after all the lines.
pub open spec fn read_lines(lines: Seq<Seq<char>>) -> FieldsView
    decreases lines.len(),
{
    if lines.len() == 0 {
        no_fields()
    } else {
        read_line(read_lines(lines.drop_last()), lines.last())
    }
}

/// What a desktop entry file says.
pub open spec fn fields_of(content: Seq<char>) -> FieldsView {
    read_lines(pieces(content, '\n'))
}

impl DesktopFields {
    /// Nothing read yet.
    pub fn new() -> (f: Self)
        ensures
            f@ == no_fields(),
    {
        DesktopFields {
            in_entry: false,
            name: None,
            exec_line: None,
            hidden: false,
            nodisplay: false,
            try_exec: None,
        }
    }

    /// Takes one more line.
    pub fn take_line(&mut self, raw: &str)
        ensures
            final(self)@ == read_line(old(self)@, raw@),
    {
        let text = trim(raw);
        let line = chars_of(text.as_str());
        let n = line.len();
        if n == 0 || line[0] == '#' {
            return ;
        }
        if line[0] == '[' && line[n - 1] == ']' {
            self.in_entry = same_text(text.as_str(), "[Desktop Entry]");
            return ;
        }
        if !self.in_entry {
            return ;
        }
        let mut at: usize = 0;
        while at < n && line[at] != '='
            invariant
                at <= n,
                n == line.len(),
                equals_at(line@, 0) == equals_at(line@, at as int),
            decreases n - at,
        {
            at += 1;
        }
        if at >= n {
            return ;
        }
        let key_text = string_of(&line, 0, at);
        let value_text = string_of(&line, at + 1, n);
        let key = trim(key_text.as_str());
        let value = trim(value_text.as_str());
        if same_text(key.as_str(), "Name") {
            self.name = Some(value);
        } else if same_text(key.as_str(), "Exec") {
            self.exec_line = Some(value);
        } else if same_text(key.as_str(), "Hidden") {
            self.hidden = parse_bool(value.as_str());
        } else if same_text(key.as_str(), "NoDisplay") {
            self.nodisplay = parse_bool(value.as_str());
        } else if same_text(key.as_str(), "TryExec") {
            self.try_exec = Some(value);
        }
    }

    /// The program that has to exist for the entry to count, if it names one.
    pub fn try_exec_token(&self) -> (token: Option<String>)
        ensures
            crate::frame::text_of(token) == required_program(self@),
    {
        match &self.try_exec {
            Some(line) => {
                let mut words = parse_exec(line.as_str());
                if words.len() > 0 {
                    let first = words.swap_remove(0);
                    Some(first)
                } else {
                    None
                }
            },
            None => None,
        }
    }
}

/// The program that has to exist for the entry to count: the first word of
/// its `TryExec` line.
pub open spec fn required_program(f: FieldsView) -> Option<Seq<char>> {
    match f.try_exec {
        Some(line) if exec_words(line).len() > 0 => Some(exec_words(line)[0]),
        _ => None,
    }
}

/// Reads a desktop entry file.
pub fn parse_desktop_entry(content: &str) -> (f: DesktopFields)
    ensures
        f@ == fields_of(content@),
{
    let lines = split(content, '\n');
    let mut f = DesktopFields::new();
    let mut i: usize = 0;
    assert(lines.deep_view().take(0) == Seq::<Seq<char>>::empty());
    while i < lines.len()
        invariant
            i <= lines.len(),
            f@ == read_lines(lines.deep_view().take(i as int)),
        decreases lines.len() - i,
    {
        let ghost upto = lines.deep_view().take(i + 1);
        assert(upto.drop_last() == lines.deep_view().take(i as int));
        assert(upto.last() == lines@[i as int]@);
        f.take_line(lines[i].as_str());
        i += 1;
    }
    assert(lines.deep_view().take(lines.len() as int) == lines.deep_view());
    f
}

/// A session on offer.
#[derive(Clone, Debug, PartialEq, Eq)]
pub struct SessionOffer {
    pub id: String,
    pub name: String,
    pub command: Vec<String>,
    pub session_type: String,
    pub desktop_file: String,
}

/// A [`SessionOffer`] as plain values.
pub struct OfferView {
    pub id: Seq<char>,
    pub name: Seq<char>,
    pub command: Seq<Seq<char>>,
    pub session_type: Seq<char>,
    pub desktop_file: Seq<char>,
}

impl View for SessionOffer {
    type V = OfferView;

    open spec fn view(&self) -> OfferView {
        OfferView {
            id: self.id@,
            name: self.name@,
            command: self.command.deep_view(),
            session_type: self.session_type@,
            desktop_file: self.desktop_file@,
        }
    }
}

impl DeepView for SessionOffer {
    type V = OfferView;

    open spec fn deep_view(&self) -> OfferView {
        self@
    }
}

/// The session that a desktop entry offers: none where the entry is hidden
/// or not to be displayed, has no command line or an empty one, or requires
/// a program that is not there; else the session under the name of the
/// entry or, where it has none, under its identifier.
pub open spec fn offer_of(
    f: FieldsView,
    id: Seq<char>,
    session_type: Seq<char>,
    desktop_file: Seq<char>,
    program_found: bool,
) -> Option<OfferView> {
    if f.hidden || f.nodisplay || f.exec_line is None {
        None
    } else if required_program(f) is Some && !program_found {
        None
    } else if exec_words(f.exec_line->0).len() == 0 {
        None
    } else {
        Some(
            OfferView {
                id,
                name: match f.name {
                    Some(name) => name,
                    None => id,
                },
                command: exec_words(f.exec_line->0),
                session_type,
                desktop_file,
            },
        )
    }
}

/// Decides what a desktop entry offers. `program_found` says whether the
/// program that the entry requires is there; it counts only where the entry
/// requires one.
pub fn session_offer(
    f: DesktopFields,
    id: &str,
    session_type: &str,
    desktop_file: &str,
    program_found: bool,
) -> (offer: Option<SessionOffer>)
    ensures
        match offer {
            Some(o) => offer_of(f@, id@, session_type@, desktop_file@, program_found) == Some(o@),
            None => offer_of(f@, id@, session_type@, desktop_file@, program_found) is None,
        },
{
    if f.hidden || f.nodisplay {
        return None;
    }
    let required = f.try_exec_token();
    let line = match f.exec_line {
        Some(line) => line,
        None => {
            return None;
        },
    };
    if required.is_some() && !program_found {
        return None;
    }
    let command = parse_exec(line.as_str());
    if command.len() == 0 {
        return None;
    }
    let name = match f.name {
        Some(name) => name,
        None => id.to_owned(),
    };
    Some(
        SessionOffer {
            id: id.to_owned(),
            name,
            command,
            session_type: session_type.to_owned(),
            desktop_file: desktop_file.to_owned(),
        },
    )
}

// ---------------------------------------------------------------------------
// The order of the sessions on offer
// ---------------------------------------------------------------------------

/// What sessions are ordered by: their names in lowercase.
pub open spec fn sort_key(o: OfferView) -> Seq<char> {
    lowercase(o.name)
}

/// The list with one more offer put in its place: before the offers at the
/// end of the list whose keys come after its own.
pub open spec fn placed(list: Seq<OfferView>, o: OfferView) -> Seq<OfferView>
    decreases list.len(),
{
    if list.len() > 0 && key_before(sort_key(o), sort_key(list.last())) {
        placed(list.drop_last(), o).push(list.last())
    } else {
        list.push(o)
    }
}

/// The offers in the order of their keys; offers with one key stay in the
/// order in which they came.
pub open spec fn by_name(list: Seq<OfferView>) -> Seq<OfferView>
    decreases list.len(),
{
    if list.len() == 0 {
        Seq::empty()
    } else {
        placed(by_name(list.drop_last()), list.last())
    }
}

/// No offer comes after one whose key comes before its own.
pub open spec fn in_key_order(list: Seq<OfferView>) -> bool {
    forall|i: int, j: int|
        0 <= i < j < list.len() ==> !key_before(
            sort_key(#[trigger] list[j]),
            sort_key(#[trigger] list[i]),
        )
}

/// Orders the sessions on offer by their names in lowercase.
pub fn sort_offers(offers: Vec<SessionOffer>) -> (out: Vec<SessionOffer>)
    ensures
        out.deep_view() == by_name(offers.deep_view()),
{
    let ghost all = offers.deep_view();
    let mut out: Vec<SessionOffer> = Vec::new();
    let mut keys: Vec<String> = Vec::new();
    assert(all.take(0) == Seq::<OfferView>::empty());
    assert(out.deep_view() =~= Seq::<OfferView>::empty());
    for offer in it: offers
        invariant
            all.len() == it.seq().len(),
            forall|k: int| 0 <= k < all.len() ==> all[k] == (#[trigger] it.seq()[k])@,
            out.deep_view() == by_name(all.take(it.index() as int)),
            keys.len() == out.len(),
            forall|k: int| 0 <= k < out.len() ==> (#[trigger] keys[k])@ == sort_key(out[k]@),
    {
        let ghost upto = all.take(it.index() + 1);
        assert(upto.drop_last() == all.take(it.index() as int));
        assert(upto.last() == offer@);
        let key = to_lowercase(offer.name.as_str());
        let ghost list = out.deep_view();
        let mut pos: usize = out.len();
        assert(list.take(pos as int) == list);
        assert(placed(list, offer@) + list.skip(pos as int) == placed(list, offer@));
        while pos > 0 && is_before(key.as_str(), keys[pos - 1].as_str())
            invariant
                pos <= out.len(),
                keys.len() == out.len(),
                list == out.deep_view(),
                key@ == sort_key(offer@),
                forall|k: int| 0 <= k < out.len() ==> (#[trigger] keys[k])@ == sort_key(out[k]@),
                placed(list, offer@) == placed(list.take(pos as int), offer@) + list.skip(
                    pos as int,
                ),
            decreases pos,
        {
            let ghost head = list.take(pos as int);
            assert(head.last() == list[pos - 1]);
            assert(head.drop_last() == list.take(pos - 1));
            assert(placed(list.take(pos - 1), offer@).push(list[pos - 1]) + list.skip(pos as int)
                == placed(list.take(pos - 1), offer@) + list.skip(pos - 1));
            pos -= 1;
        }
        proof {
            let head = list.take(pos as int);
            if pos > 0 {
                assert(head.last() == list[pos - 1]);
            }
            assert(placed(head, offer@) == head.push(offer@));
        }
        out.insert(pos, offer);
        keys.insert(pos, key);
        assert(out.deep_view() =~= list.take(pos as int).push(offer@) + list.skip(pos as int));
    }
    assert(all.take(all.len() as int) == all);
    out
}

fn is_before(a: &str, b: &str) -> (r: bool)
    ensures
        r == key_before(a@, b@),
{
    match key_order(a, b) {
        KeyOrder::Before => true,
        _ => false,
    }
}

proof fn lemma_placed_keeps_order(list: Seq<OfferView>, o: OfferView)
    requires
        in_key_order(list),
    ensures
        in_key_order(placed(list, o)),
        placed(list, o).to_multiset() == list.to_multiset().insert(o),
        forall|k: int|
            0 <= k < placed(list, o).len() ==> #[trigger] placed(list, o)[k] == o || list.contains(
                placed(list, o)[k],
            ),
    decreases list.len(),
{
    let out = placed(list, o);
    broadcast use vstd::seq_lib::to_multiset_build;

    if list.len() > 0 && key_before(sort_key(o), sort_key(list.last())) {
        let rest = list.drop_last();
        let inner = placed(rest, o);
        assert(in_key_order(rest)) by {
            assert forall|i: int, j: int| 0 <= i < j < rest.len() implies !key_before(
                sort_key(#[trigger] rest[j]),
                sort_key(#[trigger] rest[i]),
            ) by {
                assert(rest[i] == list[i] && rest[j] == list[j]);
            }
        }
        lemma_placed_keeps_order(rest, o);
        assert(list == rest.push(list.last()));
        assert(out.to_multiset() =~= list.to_multiset().insert(o));
        assert forall|k: int| 0 <= k < out.len() implies #[trigger] out[k] == o || list.contains(
            out[k],
        ) by {
            if k < inner.len() {
                assert(out[k] == inner[k]);
                if inner[k] != o {
                    let w = choose|w: int| 0 <= w < rest.len() && rest[w] == inner[k];
                    assert(list[w] == rest[w]);
                }
            } else {
                assert(out[k] == list[list.len() - 1]);
            }
        }
        assert forall|i: int, j: int| 0 <= i < j < out.len() implies !key_before(
            sort_key(#[trigger] out[j]),
            sort_key(#[trigger] out[i]),
        ) by {
            if j < inner.len() {
                assert(out[i] == inner[i] && out[j] == inner[j]);
            } else {
                assert(out[j] == list.last());
                assert(out[i] == inner[i]);
                if inner[i] == o {
                    lemma_names_are_ordered(sort_key(o), sort_key(list.last()), sort_key(o));
                } else {
                    let w = choose|w: int| 0 <= w < rest.len() && rest[w] == inner[i];
                    assert(list[w] == rest[w]);
                    assert(list[list.len() - 1] == list.last());
                }
            }
        }
    } else {
        assert(out.to_multiset() =~= list.to_multiset().insert(o));
        assert forall|k: int| 0 <= k < out.len() implies #[trigger] out[k] == o || list.contains(
            out[k],
        ) by {
            if k < list.len() {
                assert(out[k] == list[k]);
            }
        }
        assert forall|i: int, j: int| 0 <= i < j < out.len() implies !key_before(
            sort_key(#[trigger] out[j]),
            sort_key(#[trigger] out[i]),
        ) by {
            if j < list.len() {
                assert(out[i] == list[i] && out[j] == list[j]);
            } else {
                assert(out[j] == o);
                assert(out[i] == list[i]);
                // nothing in the list comes after the new offer
                if list.len() > 0 && i < list.len() - 1 {
                    lemma_names_are_ordered(
                        sort_key(o),
                        sort_key(list[i]),
                        sort_key(list.last()),
                    );
                    assert(list[list.len() - 1] == list.last());
                    if key_before(sort_key(o), sort_key(list[i])) {
                        lemma_names_are_ordered(
                            sort_key(list.last()),
                            sort_key(o),
                            sort_key(list[i]),
                        );
                        lemma_names_are_ordered(sort_key(o), sort_key(list.last()), sort_key(o));
                    }
                }
            }
        }
    }
}

/// Ordering loses and adds nothing and puts the offers in the order of their
/// keys.
pub proof fn lemma_by_name_orders(list: Seq<OfferView>)
    ensures
        in_key_order(by_name(list)),
        by_name(list).to_multiset() == list.to_multiset(),
    decreases list.len(),
{
    broadcast use vstd::seq_lib::to_multiset_build;

    if list.len() > 0 {
        let rest = list.drop_last();
        lemma_by_name_orders(rest);
        lemma_placed_keeps_order(by_name(rest), list.last());
        assert(list == rest.push(list.last()));
        assert(rest.push(list.last()).to_multiset() =~= rest.to_multiset().insert(list.last()));
    } else {
        assert(list =~= Seq::<OfferView>::empty());
    }
}

} // verus!
