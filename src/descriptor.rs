use vstd::prelude::*;
use vstd::string::StrSliceExecFns;
use vstd::string::StringExecFns;

use crate::text::{
    ends_with, find_char, lemma_find_char, lemma_split_cons, lemma_split_single, no_char, split_lines,
    str_eq,
};

verus! {

/// One `key=value` line of a descriptor that the model does not interpret.
#[derive(Clone, Debug)]
pub struct Entry {
    pub key: String,
    pub value: String,
}

/// A launcher descriptor: the record the desktop shell reads to show and start a package.
#[derive(Clone, Debug)]
pub struct LauncherDescriptor {
    pub name: String,
    pub exec_path: String,
    pub icon: Option<String>,
    /// Fields kept verbatim, in their original order.
    pub extras: Vec<Entry>,
    /// When set, the serialized `Exec` value carries the no-sandbox argument.
    pub no_sandbox: bool,
}

/// The mathematical value of a descriptor.
pub struct DescriptorModel {
    pub name: Seq<char>,
    pub exec_path: Seq<char>,
    pub icon: Option<Seq<char>>,
    pub extras: Seq<(Seq<char>, Seq<char>)>,
    pub no_sandbox: bool,
}

pub open spec fn opt_view(o: Option<String>) -> Option<Seq<char>> {
    match o {
        Some(s) => Some(s@),
        None => None,
    }
}

pub open spec fn entry_view(e: Entry) -> (Seq<char>, Seq<char>) {
    (e.key@, e.value@)
}

pub open spec fn entries_view(es: Seq<Entry>) -> Seq<(Seq<char>, Seq<char>)> {
    es.map_values(|e: Entry| entry_view(e))
}

impl View for LauncherDescriptor {
    type V = DescriptorModel;

    open spec fn view(&self) -> DescriptorModel {
        DescriptorModel {
            name: self.name@,
            exec_path: self.exec_path@,
            icon: opt_view(self.icon),
            extras: entries_view(self.extras@),
            no_sandbox: self.no_sandbox,
        }
    }
}

/// The key whose absence a strict parse reports.
#[derive(Clone, Copy, Debug, PartialEq, Eq, Structural)]
pub enum RequiredField {
    Name,
    Exec,
}

#[derive(Clone, Copy, Debug, PartialEq, Eq, Structural)]
pub enum ParseError {
    /// No `[Desktop Entry]` header line.
    MissingSection,
    MissingRequiredField(RequiredField),
}

pub open spec fn section_header() -> Seq<char> {
    "[Desktop Entry]"@
}

pub open spec fn name_key() -> Seq<char> {
    "Name"@
}

pub open spec fn exec_key() -> Seq<char> {
    "Exec"@
}

pub open spec fn icon_key() -> Seq<char> {
    "Icon"@
}

/// The argument appended to `Exec` when the sandbox is switched off.
pub open spec fn sandbox_token() -> Seq<char> {
    " --no-sandbox"@
}

/// A `key=value` line without its newline.
pub open spec fn pair_text(key: Seq<char>, value: Seq<char>) -> Seq<char> {
    key + seq!['='] + value
}

pub open spec fn line_of(key: Seq<char>, value: Seq<char>) -> Seq<char> {
    pair_text(key, value) + seq!['\n']
}

pub open spec fn entries_text(es: Seq<(Seq<char>, Seq<char>)>) -> Seq<char>
    decreases es.len(),
{
    if es.len() == 0 {
        seq![]
    } else {
        line_of(es[0].0, es[0].1) + entries_text(es.drop_first())
    }
}

pub open spec fn icon_text(icon: Option<Seq<char>>) -> Seq<char> {
    match icon {
        Some(p) => line_of(icon_key(), p),
        None => seq![],
    }
}

/// The `Exec` value as written: the path, then the no-sandbox argument if the flag is set.
pub open spec fn exec_field(d: DescriptorModel) -> Seq<char> {
    if d.no_sandbox {
        d.exec_path + sandbox_token()
    } else {
        d.exec_path
    }
}

/// The text of a descriptor: header, `Name`, `Exec`, `Icon` if any, then the kept fields.
pub open spec fn serialized(d: DescriptorModel) -> Seq<char> {
    section_header() + seq!['\n'] + line_of(name_key(), d.name) + line_of(exec_key(), exec_field(d))
        + icon_text(d.icon) + entries_text(d.extras)
}

/// A kept field that reads back as itself.
pub open spec fn valid_entry(e: (Seq<char>, Seq<char>)) -> bool {
    &&& no_char(e.0, '\n')
    &&& no_char(e.0, '=')
    &&& !(e.0.len() > 0 && e.0[0] == '[')
    &&& e.0 != name_key()
    &&& e.0 != exec_key()
    &&& e.0 != icon_key()
    &&& no_char(e.1, '\n')
}

/// A well-formed descriptor: a non-empty name, single-line values, an `Exec` path
/// that does not itself end in the no-sandbox argument, and kept fields that read back.
pub open spec fn valid_descriptor(d: DescriptorModel) -> bool {
    &&& d.name.len() > 0
    &&& no_char(d.name, '\n')
    &&& no_char(d.exec_path, '\n')
    &&& !ends_with(d.exec_path, sandbox_token())
    &&& (d.icon matches Some(p) ==> no_char(p, '\n'))
    &&& forall|i: int| 0 <= i < d.extras.len() ==> valid_entry(#[trigger] d.extras[i])
}

pub proof fn lemma_entries_text_push(es: Seq<(Seq<char>, Seq<char>)>, e: (Seq<char>, Seq<char>))
    ensures
        entries_text(es.push(e)) == entries_text(es) + line_of(e.0, e.1),
    decreases es.len(),
{
    if es.len() == 0 {
        assert(es.push(e).drop_first() =~= seq![]);
        assert(entries_text(es.push(e).drop_first()) == Seq::<char>::empty());
        assert(entries_text(es) == Seq::<char>::empty());
        assert(entries_text(es.push(e)) =~= line_of(e.0, e.1));
    } else {
        assert(es.push(e).drop_first() =~= es.drop_first().push(e));
        lemma_entries_text_push(es.drop_first(), e);
        assert(entries_text(es.push(e)) =~= entries_text(es) + line_of(e.0, e.1));
    }
}

/// Where a scan stands relative to the descriptor's section.
#[derive(Clone, Copy, Debug, PartialEq, Eq, Structural)]
pub enum ScanPhase {
    BeforeSection,
    InSection,
    AfterSection,
}

/// What a scan has gathered so far.
pub struct ScanModel {
    pub phase: ScanPhase,
    pub name: Option<Seq<char>>,
    pub exec_path: Option<Seq<char>>,
    pub icon: Option<Seq<char>>,
    pub extras: Seq<(Seq<char>, Seq<char>)>,
}

pub open spec fn scan_start() -> ScanModel {
    ScanModel {
        phase: ScanPhase::BeforeSection,
        name: None,
        exec_path: None,
        icon: None,
        extras: seq![],
    }
}

/// One line read in a scan. Before the header every other line is skipped; inside the
/// section another header ends it, a line without `=` is skipped, and a `key=value`
/// line (split at its first `=`) sets `Name`, `Exec` or `Icon`, or is kept.
pub open spec fn scan_line(st: ScanModel, line: Seq<char>) -> ScanModel {
    match st.phase {
        ScanPhase::BeforeSection => {
            if line == section_header() {
                ScanModel { phase: ScanPhase::InSection, ..st }
            } else {
                st
            }
        },
        ScanPhase::InSection => {
            if line.len() > 0 && line[0] == '[' {
                ScanModel { phase: ScanPhase::AfterSection, ..st }
            } else {
                let k = find_char(line, '=');
                if k >= line.len() {
                    st
                } else {
                    let key = line.subrange(0, k);
                    let value = line.subrange(k + 1, line.len() as int);
                    if key == name_key() {
                        ScanModel { name: Some(value), ..st }
                    } else if key == exec_key() {
                        ScanModel { exec_path: Some(value), ..st }
                    } else if key == icon_key() {
                        ScanModel { icon: Some(value), ..st }
                    } else {
                        ScanModel { extras: st.extras.push((key, value)), ..st }
                    }
                }
            }
        },
        ScanPhase::AfterSection => st,
    }
}

pub open spec fn scan_lines(st: ScanModel, lines: Seq<Seq<char>>) -> ScanModel
    decreases lines.len(),
{
    if lines.len() == 0 {
        st
    } else {
        scan_lines(scan_line(st, lines[0]), lines.drop_first())
    }
}

pub open spec fn or_empty(o: Option<Seq<char>>) -> Seq<char> {
    match o {
        Some(s) => s,
        None => seq![],
    }
}

/// The descriptor a finished scan yields. A strict parse needs `Name` and `Exec`; a
/// lenient one reads a missing one as empty. A trailing no-sandbox argument on `Exec`
/// becomes the flag.
pub open spec fn scan_result(st: ScanModel, strict: bool) -> Result<DescriptorModel, ParseError> {
    if st.phase == ScanPhase::BeforeSection {
        Err(ParseError::MissingSection)
    } else if strict && st.name is None {
        Err(ParseError::MissingRequiredField(RequiredField::Name))
    } else if strict && st.exec_path is None {
        Err(ParseError::MissingRequiredField(RequiredField::Exec))
    } else {
        let raw = or_empty(st.exec_path);
        let flagged = ends_with(raw, sandbox_token());
        Ok(
            DescriptorModel {
                name: or_empty(st.name),
                exec_path: if flagged {
                    raw.subrange(0, raw.len() - sandbox_token().len())
                } else {
                    raw
                },
                icon: st.icon,
                extras: st.extras,
                no_sandbox: flagged,
            },
        )
    }
}

/// The descriptor that `text` reads as.
pub open spec fn parsed(text: Seq<char>, strict: bool) -> Result<DescriptorModel, ParseError> {
    scan_result(scan_lines(scan_start(), split_lines(text)), strict)
}

pub open spec fn parse_view(r: Result<LauncherDescriptor, ParseError>) -> Result<DescriptorModel, ParseError> {
    match r {
        Ok(d) => Ok(d@),
        Err(e) => Err(e),
    }
}

/// Exec state of a scan.
struct Scanner {
    phase: ScanPhase,
    name: Option<String>,
    exec_path: Option<String>,
    icon: Option<String>,
    extras: Vec<Entry>,
}

impl View for Scanner {
    type V = ScanModel;

    closed spec fn view(&self) -> ScanModel {
        ScanModel {
            phase: self.phase,
            name: opt_view(self.name),
            exec_path: opt_view(self.exec_path),
            icon: opt_view(self.icon),
            extras: entries_view(self.extras@),
        }
    }
}

fn take_or_empty(o: Option<String>) -> (r: String)
    ensures
        r@ == or_empty(opt_view(o)),
{
    match o {
        Some(s) => s,
        None => String::new(),
    }
}

impl Scanner {
    fn feed(&mut self, line: &str)
        ensures
            final(self)@ == scan_line(old(self)@, line@),
    {
        match self.phase {
            ScanPhase::BeforeSection => {
                if str_eq(line, "[Desktop Entry]") {
                    self.phase = ScanPhase::InSection;
                }
            },
            ScanPhase::InSection => {
                let n = line.unicode_len();
                if n > 0 && line.get_char(0) == '[' {
                    self.phase = ScanPhase::AfterSection;
                    return;
                }
                let mut k: usize = 0;
                while k < n && line.get_char(k) != '='
                    invariant
                        n == line@.len(),
                        k <= n,
                        forall|j: int| 0 <= j < k ==> line@[j] != '=',
                    decreases n - k,
                {
                    k = k + 1;
                }
                proof {
                    lemma_find_char(line@, '=', k as int);
                }
                if k == n {
                    return;
                }
                let key = line.substring_char(0, k);
                let value = String::from_str(line.substring_char(k + 1, n));
                if str_eq(key, "Name") {
                    self.name = Some(value);
                } else if str_eq(key, "Exec") {
                    self.exec_path = Some(value);
                } else if str_eq(key, "Icon") {
                    self.icon = Some(value);
                } else {
                    let ghost before = self.extras@;
                    self.extras.push(Entry { key: String::from_str(key), value });
                    assert(entries_view(self.extras@) =~= entries_view(before).push((key@, value@)));
                }
            },
            ScanPhase::AfterSection => {},
        }
    }

    fn finish(self, strict: bool) -> (r: Result<LauncherDescriptor, ParseError>)
        ensures
            parse_view(r) == scan_result(self@, strict),
    {
        if self.phase == ScanPhase::BeforeSection {
            return Err(ParseError::MissingSection);
        }
        if strict && self.name.is_none() {
            return Err(ParseError::MissingRequiredField(RequiredField::Name));
        }
        if strict && self.exec_path.is_none() {
            return Err(ParseError::MissingRequiredField(RequiredField::Exec));
        }
        let name = take_or_empty(self.name);
        let raw = take_or_empty(self.exec_path);
        let token = " --no-sandbox";
        proof {
            reveal_strlit(" --no-sandbox");
        }
        let n = raw.as_str().unicode_len();
        let t = token.unicode_len();
        let flagged = n >= t && str_eq(raw.as_str().substring_char(n - t, n), token);
        let exec_path = if flagged {
            String::from_str(raw.as_str().substring_char(0, n - t))
        } else {
            raw
        };
        Ok(LauncherDescriptor { name, exec_path, icon: self.icon, extras: self.extras, no_sandbox: flagged })
    }
}

proof fn lemma_scan_cons(st: ScanModel, l: Seq<char>, r: Seq<char>)
    requires
        no_char(l, '\n'),
    ensures
        scan_lines(st, split_lines(l + seq!['\n'] + r)) == scan_lines(scan_line(st, l), split_lines(r)),
{
    lemma_split_cons(l, r);
    let ls = seq![l] + split_lines(r);
    assert(ls[0] == l);
    assert(ls.drop_first() =~= split_lines(r));
}

proof fn lemma_scan_pair(st: ScanModel, key: Seq<char>, value: Seq<char>)
    requires
        st.phase == ScanPhase::InSection,
        no_char(key, '='),
        !(key.len() > 0 && key[0] == '['),
    ensures
        ({
            let k = find_char(pair_text(key, value), '=');
            &&& k == key.len()
            &&& pair_text(key, value).subrange(0, k) == key
            &&& pair_text(key, value).subrange(k + 1, pair_text(key, value).len() as int) == value
        }),
        !(pair_text(key, value).len() > 0 && pair_text(key, value)[0] == '['),
{
    let line = pair_text(key, value);
    lemma_find_char(line, '=', key.len() as int);
    assert(line.subrange(0, key.len() as int) =~= key);
    assert(line.subrange(key.len() + 1int, line.len() as int) =~= value);
    if key.len() == 0 {
        assert(line[0] == '=');
    } else {
        assert(line[0] == key[0]);
    }
}

proof fn lemma_no_char_concat(a: Seq<char>, b: Seq<char>, c: char)
    requires
        no_char(a, c),
        no_char(b, c),
    ensures
        no_char(a + b, c),
{
    assert forall|i: int| 0 <= i < (a + b).len() implies (a + b)[i] != c by {
        if i >= a.len() {
            assert((a + b)[i] == b[i - a.len()]);
        }
    }
}

proof fn lemma_keys()
    ensures
        no_char(name_key(), '=') && no_char(name_key(), '\n') && name_key()[0] != '[',
        no_char(exec_key(), '=') && no_char(exec_key(), '\n') && exec_key()[0] != '[',
        no_char(icon_key(), '=') && no_char(icon_key(), '\n') && icon_key()[0] != '[',
        name_key().len() == 4 && exec_key().len() == 4 && icon_key().len() == 4,
        exec_key() != name_key(),
        icon_key() != name_key(),
        icon_key() != exec_key(),
        no_char(section_header(), '\n'),
        no_char(sandbox_token(), '\n'),
{
    reveal_strlit("Name");
    reveal_strlit("Exec");
    reveal_strlit("Icon");
    reveal_strlit("[Desktop Entry]");
    reveal_strlit(" --no-sandbox");
    assert(exec_key()[0] != name_key()[0]);
    assert(icon_key()[0] != name_key()[0]);
    assert(icon_key()[0] != exec_key()[0]);
}

proof fn lemma_scan_entries(st: ScanModel, es: Seq<(Seq<char>, Seq<char>)>)
    requires
        st.phase == ScanPhase::InSection,
        forall|i: int| 0 <= i < es.len() ==> valid_entry(#[trigger] es[i]),
    ensures
        scan_lines(st, split_lines(entries_text(es))) == (ScanModel { extras: st.extras + es, ..st }),
    decreases es.len(),
{
    if es.len() == 0 {
        assert(st.extras + es =~= st.extras);
        assert(entries_text(es) =~= seq![]);
        assert(split_lines(seq![]) == Seq::<Seq<char>>::empty());
    } else {
        let e = es[0];
        assert(valid_entry(e));
        let rest = es.drop_first();
        lemma_no_char_concat(e.0 + seq!['='], e.1, '\n');
        lemma_no_char_concat(e.0, seq!['='], '\n');
        assert(entries_text(es) =~= pair_text(e.0, e.1) + seq!['\n'] + entries_text(rest));
        lemma_scan_cons(st, pair_text(e.0, e.1), entries_text(rest));
        lemma_scan_pair(st, e.0, e.1);
        let st1 = ScanModel { extras: st.extras.push(e), ..st };
        assert(scan_line(st, pair_text(e.0, e.1)) == st1);
        assert forall|i: int| 0 <= i < rest.len() implies valid_entry(#[trigger] rest[i]) by {
            assert(rest[i] == es[i + 1]);
        }
        lemma_scan_entries(st1, rest);
        assert(st1.extras + rest =~= st.extras + es);
    }
}

/// A well-formed descriptor reads back from its own text, field for field, under a strict parse.
pub proof fn lemma_parse_serialized(d: DescriptorModel)
    requires
        valid_descriptor(d),
    ensures
        parsed(serialized(d), true) == Ok::<DescriptorModel, ParseError>(d),
{
    lemma_keys();
    let ef = exec_field(d);
    if d.no_sandbox {
        lemma_no_char_concat(d.exec_path, sandbox_token(), '\n');
    }
    lemma_no_char_concat(name_key() + seq!['='], d.name, '\n');
    lemma_no_char_concat(name_key(), seq!['='], '\n');
    lemma_no_char_concat(exec_key() + seq!['='], ef, '\n');
    lemma_no_char_concat(exec_key(), seq!['='], '\n');
    let r_entries = entries_text(d.extras);
    let r_icon = icon_text(d.icon) + r_entries;
    let r_exec = line_of(exec_key(), ef) + r_icon;
    let r_name = line_of(name_key(), d.name) + r_exec;
    assert(serialized(d) =~= section_header() + seq!['\n'] + r_name);
    let st0 = scan_start();
    lemma_scan_cons(st0, section_header(), r_name);
    let st1 = scan_line(st0, section_header());
    assert(st1 == ScanModel { phase: ScanPhase::InSection, ..st0 });

    assert(r_name =~= pair_text(name_key(), d.name) + seq!['\n'] + r_exec);
    lemma_scan_cons(st1, pair_text(name_key(), d.name), r_exec);
    lemma_scan_pair(st1, name_key(), d.name);
    let st2 = ScanModel { name: Some(d.name), ..st1 };
    assert(scan_line(st1, pair_text(name_key(), d.name)) == st2);

    assert(r_exec =~= pair_text(exec_key(), ef) + seq!['\n'] + r_icon);
    lemma_scan_cons(st2, pair_text(exec_key(), ef), r_icon);
    lemma_scan_pair(st2, exec_key(), ef);
    let st3 = ScanModel { exec_path: Some(ef), ..st2 };
    assert(scan_line(st2, pair_text(exec_key(), ef)) == st3);

    let st4 = ScanModel { icon: d.icon, ..st3 };
    match d.icon {
        Some(p) => {
            lemma_no_char_concat(icon_key() + seq!['='], p, '\n');
            lemma_no_char_concat(icon_key(), seq!['='], '\n');
            assert(r_icon =~= pair_text(icon_key(), p) + seq!['\n'] + r_entries);
            lemma_scan_cons(st3, pair_text(icon_key(), p), r_entries);
            lemma_scan_pair(st3, icon_key(), p);
            assert(scan_line(st3, pair_text(icon_key(), p)) == st4);
        },
        None => {
            assert(r_icon =~= r_entries);
            assert(st4 == st3);
        },
    }
    lemma_scan_entries(st4, d.extras);
    let st5 = ScanModel { extras: st4.extras + d.extras, ..st4 };
    assert(st5.extras =~= d.extras);
    assert(scan_lines(st0, split_lines(serialized(d))) == st5);
    if d.no_sandbox {
        let raw = d.exec_path + sandbox_token();
        assert(raw.subrange(raw.len() - sandbox_token().len(), raw.len() as int) =~= sandbox_token());
        assert(raw.subrange(0, raw.len() - sandbox_token().len()) =~= d.exec_path);
    }
}

/// Switching the sandbox off a second time changes nothing: the `Exec` value, and so
/// the whole text, is that of switching it off once.
pub proof fn lemma_no_sandbox_idempotent(d: DescriptorModel)
    ensures
        exec_field(DescriptorModel { no_sandbox: true, ..DescriptorModel { no_sandbox: true, ..d } })
            == exec_field(DescriptorModel { no_sandbox: true, ..d }),
        serialized(DescriptorModel { no_sandbox: true, ..DescriptorModel { no_sandbox: true, ..d } })
            == serialized(DescriptorModel { no_sandbox: true, ..d }),
        exec_field(DescriptorModel { no_sandbox: true, ..d }) == d.exec_path + sandbox_token(),
{
}

/// Appends `key=value` and a newline to `out`.
fn push_line(out: &mut String, key: &str, value: &str)
    ensures
        final(out)@ == old(out)@ + line_of(key@, value@),
{
    out.append(key);
    out.append("=");
    out.append(value);
    out.append("\n");
    proof {
        reveal_strlit("=");
        reveal_strlit("\n");
    }
    assert(final(out)@ =~= old(out)@ + line_of(key@, value@));
}

impl LauncherDescriptor {
    /// Reads a descriptor from its text.
    pub fn parse(text: &str, strict: bool) -> (r: Result<LauncherDescriptor, ParseError>)
        ensures
            parse_view(r) == parsed(text@, strict),
    {
        let n = text.unicode_len();
        let mut sc = Scanner {
            phase: ScanPhase::BeforeSection,
            name: None,
            exec_path: None,
            icon: None,
            extras: Vec::new(),
        };
        assert(sc@.extras =~= seq![]);
        let mut pos: usize = 0;
        assert(text@.subrange(0, n as int) =~= text@);
        while pos < n
            invariant
                n == text@.len(),
                pos <= n,
                scan_lines(sc@, split_lines(text@.subrange(pos as int, n as int))) == scan_lines(
                    scan_start(),
                    split_lines(text@),
                ),
            decreases n - pos,
        {
            let mut end: usize = pos;
            while end < n && text.get_char(end) != '\n'
                invariant
                    n == text@.len(),
                    pos <= end <= n,
                    forall|j: int| pos <= j < end ==> text@[j] != '\n',
                decreases n - end,
            {
                end = end + 1;
            }
            let line = text.substring_char(pos, end);
            let ghost st0 = sc@;
            let ghost rest_from: int = if end < n { end + 1 } else { n as int };
            proof {
                let s = text@.subrange(pos as int, n as int);
                let rest = text@.subrange(rest_from, n as int);
                assert(no_char(line@, '\n'));
                if end < n {
                    assert(s =~= line@ + seq!['\n'] + rest);
                    lemma_split_cons(line@, rest);
                } else {
                    assert(s =~= line@);
                    lemma_split_single(line@);
                    assert(rest =~= seq![]);
                }
                let ls = seq![line@] + split_lines(rest);
                assert(ls[0] == line@);
                assert(ls.drop_first() =~= split_lines(rest));
            }
            sc.feed(line);
            pos = if end < n { end + 1 } else { n };
        }
        assert(text@.subrange(pos as int, n as int) =~= seq![]);
        sc.finish(strict)
    }
    /// The `Exec` value as it is written out.
    pub fn exec_value(&self) -> (r: String)
        ensures
            r@ == exec_field(self@),
    {
        let mut s = self.exec_path.clone();
        if self.no_sandbox {
            s.append(" --no-sandbox");
        }
        s
    }

    pub fn set_exec(&mut self, path: String)
        ensures
            final(self)@ == (DescriptorModel { exec_path: path@, ..old(self)@ }),
    {
        self.exec_path = path;
    }

    pub fn set_icon(&mut self, path: String)
        ensures
            final(self)@ == (DescriptorModel { icon: Some(path@), ..old(self)@ }),
    {
        self.icon = Some(path);
    }

    pub fn set_no_sandbox(&mut self, no_sandbox: bool)
        ensures
            final(self)@ == (DescriptorModel { no_sandbox, ..old(self)@ }),
    {
        self.no_sandbox = no_sandbox;
    }

    /// The descriptor as text, one line per field.
    pub fn serialize(&self) -> (r: String)
        ensures
            r@ == serialized(self@),
    {
        let mut out = String::from_str("[Desktop Entry]");
        out.append("\n");
        proof {
            reveal_strlit("\n");
        }
        push_line(&mut out, "Name", self.name.as_str());
        let exec = self.exec_value();
        push_line(&mut out, "Exec", exec.as_str());
        match &self.icon {
            Some(p) => push_line(&mut out, "Icon", p.as_str()),
            None => {},
        }
        let ghost head = out@;
        assert(head =~= section_header() + seq!['\n'] + line_of(name_key(), self@.name) + line_of(
            exec_key(),
            exec_field(self@),
        ) + icon_text(self@.icon));
        let mut i: usize = 0;
        while i < self.extras.len()
            invariant
                i <= self.extras@.len(),
                out@ == head + entries_text(self@.extras.subrange(0, i as int)),
            decreases self.extras@.len() - i,
        {
            let e = &self.extras[i];
            push_line(&mut out, e.key.as_str(), e.value.as_str());
            proof {
                let es = self@.extras;
                assert(es.subrange(0, i + 1) =~= es.subrange(0, i as int).push(es[i as int]));
                lemma_entries_text_push(es.subrange(0, i as int), es[i as int]);
            }
            i = i + 1;
        }
        assert(self@.extras.subrange(0, i as int) =~= self@.extras);
        out
    }
}

} // verus!
