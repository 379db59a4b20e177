//! Configuration files that pull in other files.
//!
//! The callers open files and resolve paths. Which line pulls in what, how deep
//! files may nest, and what the files add up to is decided here.

use vstd::prelude::*;

use crate::config::error::cat3;
use crate::config::provider;
use crate::config::provider::{ConfigurationProviderError, ReadFailure};
use crate::text;

verus! {

/// The most files that may be open at once.
pub const MAX_OPEN_FILES: usize = 32;

/// The words by which a line pulls in another file.
pub struct DirectiveWords {
    /// Begins a line whose file has to be there.
    pub plain: String,
    /// Begins a line whose file may be missing.
    pub tentative: String,
    /// What diagnostics call such a line.
    pub noun: String,
}

/// The contents of [`DirectiveWords`].
pub struct WordsView {
    pub plain: text::Text,
    pub tentative: text::Text,
    pub noun: text::Text,
}

impl View for DirectiveWords {
    type V = WordsView;

    open spec fn view(&self) -> WordsView {
        WordsView { plain: self.plain@, tentative: self.tentative@, noun: self.noun@ }
    }
}

// ---------------------------------------------------------------------------
// Directives

/// Whether `s` stands between `open` and `close`.
pub open spec fn between(s: text::Text, open: char, close: char) -> bool {
    s.len() >= 2 && s[0] == open && s.last() == close
}

/// The file that the argument of a directive names.
pub open spec fn target_of(argument: text::Text) -> text::Text {
    let bare = text::trimmed(argument);
    if between(bare, '"', '"') || between(bare, '<', '>') {
        bare.subrange(1, bare.len() - 1)
    } else {
        bare
    }
}

/// A line that pulls in a file: whether the file may be missing, and its name.
pub open spec fn directive_of(line: text::Text, w: WordsView) -> Option<(bool, text::Text)> {
    let bare = text::trimmed(line);
    if text::starts_with(bare, w.plain) {
        Some((false, target_of(bare.skip(w.plain.len() as int))))
    } else if text::starts_with(bare, w.tentative) {
        Some((true, target_of(bare.skip(w.tentative.len() as int))))
    } else {
        None
    }
}

/// The text after its first `n` characters.
fn after(s: &str, prefix: &str) -> (r: String)
    requires
        text::starts_with(s@, prefix@),
    ensures
        r@ == s@.skip(prefix@.len() as int),
{
    let v = text::to_chars(s);
    let p = text::to_chars(prefix);
    let r = text::from_chars(&v, p.len(), v.len());
    assert(r@ =~= s@.skip(prefix@.len() as int));
    r
}

/// The file that the argument of a directive names.
fn read_target(argument: &str) -> (r: String)
    ensures
        r@ == target_of(argument@),
{
    let bare = text::trim(argument);
    let v = text::to_chars(bare.as_str());
    let n: usize = v.len();
    if n >= 2 && ((v[0] == '"' && v[n - 1] == '"') || (v[0] == '<' && v[n - 1] == '>')) {
        return text::from_chars(&v, 1, n - 1);
    }
    bare
}

/// A line that pulls in a file: whether the file may be missing, and its name.
pub fn read_directive(line: &str, words: &DirectiveWords) -> (r: Option<(bool, String)>)
    ensures
        match (r, directive_of(line@, words@)) {
            (Some((optional, target)), Some(d)) => optional == d.0 && target@ == d.1,
            (None, None) => true,
            _ => false,
        },
{
    let bare = text::trim(line);
    if text::has_prefix(bare.as_str(), words.plain.as_str()) {
        return Some((false, read_target(after(bare.as_str(), words.plain.as_str()).as_str())));
    }
    if text::has_prefix(bare.as_str(), words.tentative.as_str()) {
        return Some((true, read_target(after(bare.as_str(), words.tentative.as_str()).as_str())));
    }
    None
}

// ---------------------------------------------------------------------------
// Open files

/// A file that is being read.
struct OpenFile {
    path: String,
    identity: String,
    optional: bool,
    lines: Vec<String>,
    next: usize,
    text: String,
}

/// The contents of a file that is being read.
pub struct OpenFileView {
    pub path: text::Text,
    /// The same for every path to the same file.
    pub identity: text::Text,
    /// Whether the line that pulled the file in lets it be missing.
    pub optional: bool,
    pub lines: Seq<text::Text>,
    /// The first line not yet read.
    pub next: nat,
    /// What the lines read so far have become.
    pub text: text::Text,
}

impl DeepView for OpenFile {
    type V = OpenFileView;

    closed spec fn deep_view(&self) -> OpenFileView {
        OpenFileView {
            path: self.path@,
            identity: self.identity@,
            optional: self.optional,
            lines: self.lines.deep_view(),
            next: self.next as nat,
            text: self.text@,
        }
    }
}

/// The files being read, outermost first, and the text of what is complete.
pub struct ReadingView {
    pub files: Seq<OpenFileView>,
    pub text: text::Text,
}

/// Nothing has been opened yet.
pub open spec fn unopened() -> ReadingView {
    ReadingView { files: Seq::empty(), text: Seq::empty() }
}

/// The place of the first open file of this identity, or the number of files.
pub open spec fn place_of(files: Seq<OpenFileView>, identity: text::Text) -> nat
    decreases files.len(),
{
    if files.len() == 0 || files[0].identity == identity {
        0
    } else {
        1 + place_of(files.drop_first(), identity)
    }
}

/// The identities of files, one by one.
pub open spec fn identities(files: Seq<OpenFileView>) -> Seq<text::Text> {
    Seq::new(files.len(), |i: int| files[i].identity)
}

/// Why a file cannot be opened now.
pub open spec fn entry_fault(
    s: ReadingView,
    path: text::Text,
    identity: text::Text,
    w: WordsView,
) -> Option<provider::ProviderErrorView> {
    let place = place_of(s.files, identity);
    if s.files.len() >= MAX_OPEN_FILES {
        Some(
            provider::ProviderErrorView::Unavailable {
                provider: "file"@,
                message: w.noun + " nesting exceeds 32 files at "@ + path,
            },
        )
    } else if place < s.files.len() {
        Some(
            provider::ProviderErrorView::Unavailable {
                provider: "file"@,
                message: "configuration "@ + w.noun + " cycle: "@ + text::joined(
                    identities(s.files).skip(place as int).push(identity),
                    " -> "@,
                ),
            },
        )
    } else {
        None
    }
}

/// One more file, at its first line.
pub open spec fn opened(
    s: ReadingView,
    path: text::Text,
    identity: text::Text,
    optional: bool,
    contents: text::Text,
) -> ReadingView {
    ReadingView {
        files: s.files.push(
            OpenFileView {
                path,
                identity,
                optional,
                lines: text::lines_of(contents),
                next: 0,
                text: Seq::empty(),
            },
        ),
        text: s.text,
    }
}

/// The files that stay open when one is missing: a file whose own line requires
/// it is given up with the file that holds the line, up to a line that lets its
/// file be missing.
pub open spec fn kept(files: Seq<OpenFileView>, optional: bool) -> Option<Seq<OpenFileView>>
    decreases files.len(),
{
    if optional {
        Some(files)
    } else if files.len() == 0 {
        None
    } else {
        kept(files.drop_last(), files.last().optional)
    }
}

/// What is to be done next.
pub enum FileStepView {
    Open { from: text::Text, target: text::Text, optional: bool },
    Done(text::Text),
    Failed(provider::ProviderErrorView),
}

/// The text of a finished file handed on to the file that pulled it in.
pub open spec fn handed_on(files: Seq<OpenFileView>, text: text::Text, more: text::Text) -> ReadingView {
    if files.len() == 0 {
        ReadingView { files, text: text + more }
    } else {
        ReadingView {
            files: files.drop_last().push(
                OpenFileView { text: files.last().text + more, ..files.last() },
            ),
            text,
        }
    }
}

/// Reads on to the next file to open, the end, or a failure.
pub open spec fn advanced(s: ReadingView, w: WordsView) -> (ReadingView, FileStepView)
    decreases s.files.len(), s.files.last().lines.len() - s.files.last().next,
{
    if s.files.len() == 0 {
        (s, FileStepView::Done(s.text))
    } else {
        let top = s.files.last();
        let rest = s.files.drop_last();
        if top.next >= top.lines.len() {
            advanced(handed_on(rest, s.text, top.text), w)
        } else {
            let line = top.lines[top.next as int];
            let read = OpenFileView { next: top.next + 1, ..top };
            match directive_of(line, w) {
                None => advanced(
                    ReadingView {
                        files: rest.push(OpenFileView { text: top.text + line + "\n"@, ..read }),
                        text: s.text,
                    },
                    w,
                ),
                Some((optional, target)) => {
                    let at = ReadingView { files: rest.push(read), text: s.text };
                    if target.len() == 0 {
                        (
                            at,
                            FileStepView::Failed(
                                provider::ProviderErrorView::Unavailable {
                                    provider: "file"@,
                                    message: top.path + " contains an empty "@ + w.noun
                                        + " directive"@,
                                },
                            ),
                        )
                    } else {
                        (at, FileStepView::Open { from: top.path, target, optional })
                    }
                },
            }
        }
    }
}

/// What is to be done next.
pub enum FileStep {
    /// Open `target`, a path as seen from the file `from`.
    Open { from: String, target: String, optional: bool },
    /// Everything has been read, and has become this text.
    Done(String),
    Failed(ConfigurationProviderError),
}

impl View for FileStep {
    type V = FileStepView;

    open spec fn view(&self) -> FileStepView {
        match self {
            FileStep::Open { from, target, optional } => FileStepView::Open {
                from: from@,
                target: target@,
                optional: *optional,
            },
            FileStep::Done(text) => FileStepView::Done(text@),
            FileStep::Failed(e) => FileStepView::Failed(e@),
        }
    }
}

/// A configuration file being read, with the files that it pulls in.
pub struct FileReading {
    files: Vec<OpenFile>,
    text: String,
}

impl View for FileReading {
    type V = ReadingView;

    closed spec fn view(&self) -> ReadingView {
        ReadingView { files: self.files.deep_view(), text: self.text@ }
    }
}

impl FileReading {
    pub fn new() -> (r: Self)
        ensures
            r@ == unopened(),
    {
        let r = FileReading { files: Vec::new(), text: String::new() };
        assert(r@.files =~= Seq::empty());
        assert(r@.text =~= Seq::empty());
        r
    }

    /// The place of the first open file of this identity.
    fn find(&self, identity: &str) -> (r: usize)
        ensures
            r == place_of(self@.files, identity@),
            r <= self.files.len(),
    {
        let mut i: usize = 0;
        let ghost all = self.files.deep_view();
        assert(all.skip(0) =~= all);
        while i < self.files.len()
            invariant
                all == self.files.deep_view(),
                i <= self.files@.len(),
                place_of(all, identity@) == i + place_of(all.skip(i as int), identity@),
            decreases self.files.len() - i,
        {
            assert(all.skip(i as int)[0] == self.files@[i as int].deep_view());
            if text::same(self.files[i].identity.as_str(), identity) {
                return i;
            }
            assert(all.skip(i as int).drop_first() =~= all.skip(i + 1));
            i += 1;
        }
        i
    }

    /// Why a file cannot be opened now: too many are open, or it is one of them.
    pub fn check_entry(&self, path: &str, identity: &str, words: &DirectiveWords) -> (r: Option<
        ConfigurationProviderError,
    >)
        ensures
            provider::failure(r) == entry_fault(self@, path@, identity@, words@),
    {
        assert(self@.files.len() == self.files@.len());
        if self.files.len() >= MAX_OPEN_FILES {
            let message = cat3(words.noun.as_str(), " nesting exceeds 32 files at ", path);
            return Some(ConfigurationProviderError::unavailable("file", message.as_str()));
        }
        let place: usize = self.find(identity);
        if place < self.files.len() {
            let mut cycle: Vec<String> = Vec::new();
            let mut i: usize = place;
            let ghost all = identities(self@.files);
            assert(cycle.deep_view() =~= all.subrange(place as int, place as int));
            while i < self.files.len()
                invariant
                    all == identities(self@.files),
                    place <= i <= self.files@.len(),
                    cycle.deep_view() == all.subrange(place as int, i as int),
                decreases self.files.len() - i,
            {
                let ghost before = cycle.deep_view();
                let identity = text::copy(self.files[i].identity.as_str());
                let ghost added = identity@;
                cycle.push(identity);
                assert(cycle.deep_view() =~= before.push(added));
                assert(all[i as int] == self.files@[i as int].deep_view().identity);
                i += 1;
                assert(cycle.deep_view() =~= all.subrange(place as int, i as int));
            }
            assert(all.subrange(place as int, i as int) =~= all.skip(place as int));
            let ghost before = cycle.deep_view();
            cycle.push(text::copy(identity));
            assert(cycle.deep_view() =~= before.push(identity@));
            assert(cycle.deep_view().skip(0) =~= cycle.deep_view());
            let mut message = cat3("configuration ", words.noun.as_str(), " cycle: ");
            message.append(text::join_from(&cycle, 0, " -> ").as_str());
            return Some(ConfigurationProviderError::unavailable("file", message.as_str()));
        }
        None
    }

    /// Takes the contents of a file that [`FileReading::check_entry`] lets in.
    pub fn open(&mut self, path: &str, identity: &str, optional: bool, contents: &str)
        requires
            old(self)@.files.len() < MAX_OPEN_FILES,
            place_of(old(self)@.files, identity@) == old(self)@.files.len(),
        ensures
            final(self)@ == opened(old(self)@, path@, identity@, optional, contents@),
    {
        let file = OpenFile {
            path: text::copy(path),
            identity: text::copy(identity),
            optional,
            lines: text::lines(contents),
            next: 0,
            text: String::new(),
        };
        let ghost before = self.files.deep_view();
        let ghost added = file.deep_view();
        assert(file.text@ =~= Seq::empty());
        self.files.push(file);
        assert(self.files.deep_view() =~= before.push(added));
    }

    /// Takes note that a file could not be read. A missing file ends the
    /// reading unless a line on the way to it lets its file be missing.
    pub fn missed(&mut self, path: &str, failure: ReadFailure, optional: bool) -> (r: Option<
        ConfigurationProviderError,
    >)
        ensures
            match kept(old(self)@.files, optional) {
                Some(files) if failure.missing => {
                    &&& r is None
                    &&& final(self)@ == (ReadingView { files, text: old(self)@.text })
                },
                _ => provider::failure(r) == Some(
                    provider::ProviderErrorView::Read { path: path@, source: failure@ },
                ),
            },
    {
        if failure.missing {
            let mut settled = optional;
            while !settled && self.files.len() > 0
                invariant
                    kept(old(self)@.files, optional) == kept(self.files.deep_view(), settled),
                    self.text@ == old(self)@.text,
                decreases self.files.len(),
            {
                let ghost before = self.files.deep_view();
                match self.files.pop() {
                    Some(file) => {
                        assert(before.last() == file.deep_view());
                        assert(self.files.deep_view() =~= before.drop_last());
                        settled = file.optional;
                    },
                    None => {},
                }
            }
            if settled {
                return None;
            }
            assert(self.files.deep_view().len() == self.files@.len());
        }
        Some(ConfigurationProviderError::Read { path: text::copy(path), source: failure })
    }

    /// Reads on to the next file to open, the end, or a failure.
    pub fn advance(&mut self, words: &DirectiveWords) -> (r: FileStep)
        ensures
            advanced(old(self)@, words@) == (final(self)@, r@),
    {
        loop
            invariant
                advanced(old(self)@, words@) == advanced(self@, words@),
            decreases self@.files.len(), self@.files.last().lines.len() - self@.files.last().next,
        {
            let ghost s = self@;
            assert(s.files.len() == self.files@.len());
            let mut top = match self.files.pop() {
                None => {
                    assert(self@ == s);
                    return FileStep::Done(text::copy(self.text.as_str()));
                },
                Some(top) => top,
            };
            assert(s.files.last() == top.deep_view());
            assert(self.files.deep_view() =~= s.files.drop_last());
            assert(top.lines.deep_view().len() == top.lines@.len());
            if top.next >= top.lines.len() {
                match self.files.pop() {
                    None => {
                        self.text.append(top.text.as_str());
                        assert(self.files.deep_view() =~= s.files.drop_last());
                        assert(self@ == handed_on(s.files.drop_last(), s.text, top.text@));
                    },
                    Some(below) => {
                        let mut below = below;
                        assert(s.files.drop_last().last() == below.deep_view());
                        let ghost rest = s.files.drop_last().drop_last();
                        assert(self.files.deep_view() =~= rest);
                        below.text.append(top.text.as_str());
                        let ghost added = below.deep_view();
                        self.files.push(below);
                        assert(self.files.deep_view() =~= rest.push(added));
                        assert(self@ == handed_on(s.files.drop_last(), s.text, top.text@));
                    },
                }
            } else {
                let line = text::copy(top.lines[top.next].as_str());
                assert(line@ == top.deep_view().lines[top.next as int]);
                top.next = top.next + 1;
                match read_directive(line.as_str(), words) {
                    None => {
                        top.text.append(line.as_str());
                        top.text.append("\n");
                        let ghost added = top.deep_view();
                        self.files.push(top);
                        assert(self.files.deep_view() =~= s.files.drop_last().push(added));
                    },
                    Some((optional, target)) => {
                        let from = text::copy(top.path.as_str());
                        let ghost added = top.deep_view();
                        self.files.push(top);
                        assert(self.files.deep_view() =~= s.files.drop_last().push(added));
                        if target.as_str().is_empty() {
                            let mut message = cat3(
                                from.as_str(),
                                " contains an empty ",
                                words.noun.as_str(),
                            );
                            message.append(" directive");
                            return FileStep::Failed(
                                ConfigurationProviderError::unavailable("file", message.as_str()),
                            );
                        }
                        return FileStep::Open { from, target, optional };
                    },
                }
            }
        }
    }
}

// ---------------------------------------------------------------------------
// Laws

/// No more files are open than allowed, and none of them twice.
pub open spec fn sound(s: ReadingView) -> bool {
    &&& s.files.len() <= MAX_OPEN_FILES
    &&& forall|i: int, j: int|
        0 <= i < j < s.files.len() ==> (#[trigger] s.files[i]).identity != (
        #[trigger] s.files[j]).identity
}

proof fn lemma_place(files: Seq<OpenFileView>, identity: text::Text)
    ensures
        place_of(files, identity) <= files.len(),
        place_of(files, identity) == files.len() ==> forall|i: int|
            0 <= i < files.len() ==> (#[trigger] files[i]).identity != identity,
    decreases files.len(),
{
    if files.len() != 0 && files[0].identity != identity {
        let rest = files.drop_first();
        lemma_place(rest, identity);
        if place_of(files, identity) == files.len() {
            assert forall|i: int| 0 <= i < files.len() implies (#[trigger] files[i]).identity
                != identity by {
                if i > 0 {
                    assert(files[i] == rest[i - 1]);
                }
            }
        }
    }
}

/// A file that may be opened leaves the reading sound: files nest to the limit
/// at most, and no file is inside itself.
pub proof fn law_opening_keeps_the_reading_sound(
    s: ReadingView,
    path: text::Text,
    identity: text::Text,
    optional: bool,
    contents: text::Text,
    w: WordsView,
)
    requires
        sound(s),
        entry_fault(s, path, identity, w) is None,
    ensures
        sound(opened(s, path, identity, optional, contents)),
{
    lemma_place(s.files, identity);
    let files = opened(s, path, identity, optional, contents).files;
    assert forall|i: int, j: int| 0 <= i < j < files.len() implies (#[trigger] files[i]).identity
        != (#[trigger] files[j]).identity by {
        assert(files[i] == s.files[i]);
        if j < s.files.len() {
            assert(files[j] == s.files[j]);
        }
    }
}

/// A file that is open may not be opened again.
pub proof fn law_cycles_are_refused(s: ReadingView, path: text::Text, i: int, w: WordsView)
    requires
        0 <= i < s.files.len(),
    ensures
        entry_fault(s, path, s.files[i].identity, w) is Some,
{
    lemma_place(s.files, s.files[i].identity);
}

proof fn lemma_prefix_is_sound(s: ReadingView, t: ReadingView)
    requires
        sound(s),
        t.files.len() <= s.files.len(),
        forall|i: int|
            0 <= i < t.files.len() ==> (#[trigger] t.files[i]).identity == s.files[i].identity,
    ensures
        sound(t),
{
    assert forall|i: int, j: int| 0 <= i < j < t.files.len() implies (
    #[trigger] t.files[i]).identity != (#[trigger] t.files[j]).identity by {
        assert(s.files[i].identity != s.files[j].identity);
    }
}

/// Reading on leaves the reading sound.
pub proof fn law_advancing_keeps_the_reading_sound(s: ReadingView, w: WordsView)
    requires
        sound(s),
    ensures
        sound(advanced(s, w).0),
    decreases s.files.len(), s.files.last().lines.len() - s.files.last().next,
{
    if s.files.len() > 0 {
        let top = s.files.last();
        let rest = s.files.drop_last();
        if top.next >= top.lines.len() {
            let t = handed_on(rest, s.text, top.text);
            lemma_prefix_is_sound(s, t);
            law_advancing_keeps_the_reading_sound(t, w);
        } else {
            let line = top.lines[top.next as int];
            let read = OpenFileView { next: top.next + 1, ..top };
            let plain = ReadingView {
                files: rest.push(OpenFileView { text: top.text + line + "\n"@, ..read }),
                text: s.text,
            };
            lemma_prefix_is_sound(s, plain);
            lemma_prefix_is_sound(s, ReadingView { files: rest.push(read), text: s.text });
            if directive_of(line, w) is None {
                law_advancing_keeps_the_reading_sound(plain, w);
            }
        }
    }
}

/// Giving up a missing file leaves the reading sound.
pub proof fn law_missing_files_keep_the_reading_sound(s: ReadingView, optional: bool)
    requires
        sound(s),
        kept(s.files, optional) is Some,
    ensures
        sound(ReadingView { files: kept(s.files, optional)->0, text: s.text }),
    decreases s.files.len(),
{
    if !optional && s.files.len() > 0 {
        let t = ReadingView { files: s.files.drop_last(), text: s.text };
        lemma_prefix_is_sound(s, t);
        law_missing_files_keep_the_reading_sound(t, s.files.last().optional);
    }
}

/// Lines, each with its line end.
pub open spec fn terminated(lines: Seq<text::Text>) -> text::Text
    decreases lines.len(),
{
    if lines.len() == 0 {
        Seq::empty()
    } else {
        lines[0] + "\n"@ + terminated(lines.drop_first())
    }
}

proof fn lemma_plain_lines(s: ReadingView, w: WordsView)
    requires
        s.files.len() == 1,
        s.files[0].next <= s.files[0].lines.len(),
        forall|i: int|
            s.files[0].next <= i < s.files[0].lines.len() ==> directive_of(
                #[trigger] s.files[0].lines[i],
                w,
            ) is None,
    ensures
        advanced(s, w).1 == FileStepView::Done(
            s.text + (s.files[0].text + terminated(
                s.files[0].lines.skip(s.files[0].next as int),
            )),
        ),
    decreases s.files[0].lines.len() - s.files[0].next,
{
    let top = s.files[0];
    let left = top.lines.skip(top.next as int);
    let rest = s.files.drop_last();
    assert(rest.len() == 0);
    if top.next >= top.lines.len() {
        assert(left.len() == 0);
        assert(top.text + terminated(left) =~= top.text);
        let t = handed_on(rest, s.text, top.text);
        assert(advanced(t, w) == (t, FileStepView::Done(t.text)));
    } else {
        let line = top.lines[top.next as int];
        let more = top.text + line + "\n"@;
        let t = ReadingView {
            files: rest.push(OpenFileView { next: top.next + 1, text: more, ..top }),
            text: s.text,
        };
        lemma_plain_lines(t, w);
        assert(left[0] == line);
        assert(left.drop_first() =~= top.lines.skip((top.next + 1) as int));
        assert(more + terminated(top.lines.skip((top.next + 1) as int)) =~= top.text + terminated(left));
    }
}

/// A file that pulls in no other file becomes its own lines, in order.
pub proof fn law_plain_files_are_kept(
    path: text::Text,
    identity: text::Text,
    contents: text::Text,
    w: WordsView,
)
    requires
        forall|i: int|
            0 <= i < text::lines_of(contents).len() ==> directive_of(
                #[trigger] text::lines_of(contents)[i],
                w,
            ) is None,
    ensures
        advanced(opened(unopened(), path, identity, false, contents), w).1 == FileStepView::Done(
            terminated(text::lines_of(contents)),
        ),
{
    let s = opened(unopened(), path, identity, false, contents);
    lemma_plain_lines(s, w);
    let lines = text::lines_of(contents);
    assert(lines.skip(0) =~= lines);
    assert(s.text + (s.files[0].text + terminated(lines)) =~= terminated(lines));
}

proof fn lemma_terminated_push(lines: Seq<text::Text>, line: text::Text)
    ensures
        terminated(lines.push(line)) == terminated(lines) + line + "\n"@,
    decreases lines.len(),
{
    let all = lines.push(line);
    if lines.len() == 0 {
        assert(all.drop_first() =~= Seq::empty());
        assert(terminated(all.drop_first()) =~= Seq::empty());
    } else {
        lemma_terminated_push(lines.drop_first(), line);
        assert(all.drop_first() =~= lines.drop_first().push(line));
    }
    assert(terminated(all) =~= terminated(lines) + line + "\n"@);
}

/// The innermost file with its next lines read, each added to its text.
spec fn read_on(s: ReadingView, n: nat) -> ReadingView {
    let top = s.files.last();
    ReadingView {
        files: s.files.drop_last().push(
            OpenFileView {
                next: top.next + n,
                text: top.text + terminated(
                    top.lines.subrange(top.next as int, (top.next + n) as int),
                ),
                ..top
            },
        ),
        text: s.text,
    }
}

/// Lines that pull in nothing are read one by one.
proof fn lemma_read_on(s: ReadingView, w: WordsView, n: nat)
    requires
        s.files.len() > 0,
        s.files.last().next + n <= s.files.last().lines.len(),
        forall|i: int|
            s.files.last().next <= i < s.files.last().next + n ==> directive_of(
                #[trigger] s.files.last().lines[i],
                w,
            ) is None,
    ensures
        advanced(s, w) == advanced(read_on(s, n), w),
    decreases n,
{
    let top = s.files.last();
    if n == 0 {
        assert(top.lines.subrange(top.next as int, top.next as int) =~= Seq::empty());
        assert(top.text + terminated(Seq::empty()) =~= top.text);
        assert(s.files.drop_last().push(top) =~= s.files);
        assert(read_on(s, 0).files =~= s.files);
    } else {
        let m = (n - 1) as nat;
        lemma_read_on(s, w, m);
        let t = read_on(s, m);
        let at = (top.next + m) as int;
        let line = top.lines[at];
        let before = top.lines.subrange(top.next as int, at);
        assert(t.files.last().lines[t.files.last().next as int] == line);
        lemma_terminated_push(before, line);
        assert(before.push(line) =~= top.lines.subrange(top.next as int, at + 1));
        assert(t.files.drop_last() =~= s.files.drop_last());
        assert(top.text + terminated(before) + line + "\n"@ =~= top.text + (terminated(before) + line
            + "\n"@));
        assert(read_on(s, n).files =~= t.files.drop_last().push(
            OpenFileView {
                text: t.files.last().text + line + "\n"@,
                next: t.files.last().next + 1,
                ..t.files.last()
            },
        ));
    }
}

/// The lines in front of one that pulls in a file are added to the text of
/// their own file, behind what was read before. The file that the line names is
/// to be opened next, as seen from the file that holds the line, and reading
/// will go on behind the line. No other file changes.
pub proof fn law_reading_stops_at_a_directive(s: ReadingView, w: WordsView, n: nat)
    requires
        s.files.len() > 0,
        s.files.last().next + n < s.files.last().lines.len(),
        forall|i: int|
            s.files.last().next <= i < s.files.last().next + n ==> directive_of(
                #[trigger] s.files.last().lines[i],
                w,
            ) is None,
        directive_of(s.files.last().lines[(s.files.last().next + n) as int], w) matches Some(d)
            && d.1.len() > 0,
    ensures
        ({
            let top = s.files.last();
            let (t, step) = advanced(s, w);
            let d = directive_of(top.lines[(top.next + n) as int], w)->0;
            &&& step == FileStepView::Open { from: top.path, target: d.1, optional: d.0 }
            &&& t.text == s.text
            &&& t.files.len() == s.files.len()
            &&& t.files.drop_last() == s.files.drop_last()
            &&& t.files.last().path == top.path
            &&& t.files.last().identity == top.identity
            &&& t.files.last().optional == top.optional
            &&& t.files.last().lines == top.lines
            &&& t.files.last().next == top.next + n + 1
            &&& t.files.last().text == top.text + terminated(
                top.lines.subrange(top.next as int, (top.next + n) as int),
            )
        }),
{
    lemma_read_on(s, w, n);
    let t = read_on(s, n);
    assert(t.files.drop_last() =~= s.files.drop_last());
    assert(t.files.drop_last().push(
        OpenFileView { next: t.files.last().next + 1, ..t.files.last() },
    ).drop_last() =~= s.files.drop_last());
}

/// A file that is read to its end goes, whole, behind what its line found read
/// of the file that pulled it in, and that file is read on.
pub proof fn law_finished_files_go_behind_what_was_read(s: ReadingView, w: WordsView)
    requires
        s.files.len() > 0,
        s.files.last().next <= s.files.last().lines.len(),
        forall|i: int|
            s.files.last().next <= i < s.files.last().lines.len() ==> directive_of(
                #[trigger] s.files.last().lines[i],
                w,
            ) is None,
    ensures
        ({
            let top = s.files.last();
            let rest = s.files.drop_last();
            let whole = top.text + terminated(top.lines.skip(top.next as int));
            if rest.len() == 0 {
                advanced(s, w).1 == FileStepView::Done(s.text + whole)
            } else {
                let below = rest.last();
                advanced(s, w) == advanced(
                    ReadingView {
                        files: rest.drop_last().push(
                            OpenFileView {
                                path: below.path,
                                identity: below.identity,
                                optional: below.optional,
                                lines: below.lines,
                                next: below.next,
                                text: below.text + whole,
                            },
                        ),
                        text: s.text,
                    },
                    w,
                )
            }
        }),
{
    let top = s.files.last();
    let rest = s.files.drop_last();
    let n = (top.lines.len() - top.next) as nat;
    lemma_read_on(s, w, n);
    let t = read_on(s, n);
    assert(top.lines.subrange(top.next as int, top.lines.len() as int) =~= top.lines.skip(
        top.next as int,
    ));
    assert(t.files.drop_last() =~= rest);
    assert(advanced(t, w) == advanced(handed_on(rest, s.text, t.files.last().text), w));
    if rest.len() == 0 {
        let done = handed_on(rest, s.text, t.files.last().text);
        assert(advanced(done, w) == (done, FileStepView::Done(done.text)));
    }
}

/// What a file pulls in stands in place of the line that does so: a file of
/// lines, such a line and further lines, with a file that pulls in nothing,
/// becomes the first lines, the lines of that file and the further lines.
pub proof fn law_pulled_in_text_stands_in_place(
    path: text::Text,
    identity: text::Text,
    contents: text::Text,
    n: nat,
    inner_path: text::Text,
    inner_identity: text::Text,
    inner: text::Text,
    w: WordsView,
)
    requires
        n < text::lines_of(contents).len(),
        directive_of(text::lines_of(contents)[n as int], w) matches Some(d) && d.1.len() > 0,
        forall|i: int|
            0 <= i < text::lines_of(contents).len() && i != n ==> directive_of(
                #[trigger] text::lines_of(contents)[i],
                w,
            ) is None,
        forall|i: int|
            0 <= i < text::lines_of(inner).len() ==> directive_of(
                #[trigger] text::lines_of(inner)[i],
                w,
            ) is None,
    ensures
        ({
            let lines = text::lines_of(contents);
            let d = directive_of(lines[n as int], w)->0;
            let (s, step) = advanced(opened(unopened(), path, identity, false, contents), w);
            &&& step == FileStepView::Open { from: path, target: d.1, optional: d.0 }
            &&& advanced(opened(s, inner_path, inner_identity, d.0, inner), w).1
                == FileStepView::Done(
                terminated(lines.take(n as int)) + terminated(text::lines_of(inner)) + terminated(
                    lines.skip(n as int + 1),
                ),
            )
        }),
{
    let lines = text::lines_of(contents);
    let d = directive_of(lines[n as int], w)->0;
    let s0 = opened(unopened(), path, identity, false, contents);
    law_reading_stops_at_a_directive(s0, w, n);
    let s1 = advanced(s0, w).0;
    assert(lines.subrange(0, n as int) =~= lines.take(n as int));
    let s2 = opened(s1, inner_path, inner_identity, d.0, inner);
    assert(s2.files.drop_last() =~= s1.files);
    law_finished_files_go_behind_what_was_read(s2, w);
    let below = s1.files.last();
    assert(text::lines_of(inner).skip(0) =~= text::lines_of(inner));
    let whole = s2.files.last().text + terminated(text::lines_of(inner));
    assert(whole =~= terminated(text::lines_of(inner)));
    let s3 = ReadingView {
        files: s1.files.drop_last().push(
            OpenFileView {
                path: below.path,
                identity: below.identity,
                optional: below.optional,
                lines: below.lines,
                next: below.next,
                text: below.text + whole,
            },
        ),
        text: s2.text,
    };
    law_finished_files_go_behind_what_was_read(s3, w);
    assert(s3.files.drop_last().len() == 0);
    assert(below.text =~= terminated(lines.take(n as int)));
    assert(s3.text + (s3.files.last().text + terminated(lines.skip(n as int + 1))) =~= terminated(
        lines.take(n as int),
    ) + terminated(text::lines_of(inner)) + terminated(lines.skip(n as int + 1)));
}

/// A missing file that its line lets be missing changes nothing. Otherwise the
/// files on the way are given up from the innermost one, down to and with the
/// first that may be missing itself; where there is none, the reading fails.
pub proof fn law_missing_files_are_given_up(files: Seq<OpenFileView>)
    ensures
        kept(files, true) == Some(files),
        match kept(files, false) {
            None => forall|i: int| 0 <= i < files.len() ==> !(#[trigger] files[i]).optional,
            Some(left) => {
                &&& left.len() < files.len()
                &&& left == files.take(left.len() as int)
                &&& files[left.len() as int].optional
                &&& forall|i: int| left.len() < i < files.len() ==> !(#[trigger] files[i]).optional
            },
        },
    decreases files.len(),
{
    if files.len() > 0 {
        let rest = files.drop_last();
        if files.last().optional {
            assert(kept(rest, true) == Some(rest));
            assert(rest =~= files.take(rest.len() as int));
        } else {
            law_missing_files_are_given_up(rest);
            if let Some(left) = kept(rest, false) {
                assert(left =~= files.take(left.len() as int));
                assert(files[left.len() as int] == rest[left.len() as int]);
                assert forall|i: int| left.len() < i < files.len() implies !(
                #[trigger] files[i]).optional by {
                    if i < rest.len() {
                        assert(files[i] == rest[i]);
                    }
                }
            } else {
                assert forall|i: int| 0 <= i < files.len() implies !(
                #[trigger] files[i]).optional by {
                    if i < rest.len() {
                        assert(files[i] == rest[i]);
                    }
                }
            }
        }
    }
}

/// The name of a file is what stands between quotes or angle brackets behind
/// the word, or all that stands there. The word also says whether the file may
/// be missing.
pub proof fn law_directives_name_their_file(name: text::Text, w: WordsView)
    requires
        name.len() > 0,
        text::trimmed(w.plain) == w.plain,
        text::trimmed(w.tentative) == w.tentative,
        w.plain.len() > 0,
        w.tentative.len() > 0,
        exists|k: int|
            0 <= k < w.plain.len() && k < w.tentative.len() && #[trigger] w.plain[k]
                != w.tentative[k],
    ensures
        directive_of(w.plain + " \""@ + name + "\""@, w) == Some((false, name)),
        directive_of(w.tentative + " \""@ + name + "\""@, w) == Some((true, name)),
        directive_of(w.plain + " <"@ + name + ">"@, w) == Some((false, name)),
        directive_of(w.tentative + " <"@ + name + ">"@, w) == Some((true, name)),
{
    reveal_strlit(" \"");
    reveal_strlit("\"");
    reveal_strlit(" <");
    reveal_strlit(">");
    lemma_named(w.plain, name, '"', '"');
    lemma_named(w.tentative, name, '"', '"');
    lemma_named(w.plain, name, '<', '>');
    lemma_named(w.tentative, name, '<', '>');
    let p = w.plain;
    let t = w.tentative;
    let a = seq![' ', '"'];
    let b = seq!['"'];
    let c = seq![' ', '<'];
    let d = seq!['>'];
    assert(" \""@ =~= a && "\""@ =~= b && " <"@ =~= c && ">"@ =~= d);
    assert((p + a + name + b).take(p.len() as int) =~= p);
    assert((t + a + name + b).take(t.len() as int) =~= t);
    assert((p + c + name + d).take(p.len() as int) =~= p);
    assert((t + c + name + d).take(t.len() as int) =~= t);
    let k = choose|k: int| 0 <= k < p.len() && k < t.len() && #[trigger] p[k] != t[k];
    assert forall|rest: text::Text| !#[trigger] text::starts_with(t + rest, p) by {
        assert((t + rest).take(p.len() as int)[k] == t[k] || (t + rest).len() < p.len());
    }
    assert(t + a + name + b =~= t + (a + name + b));
    assert(t + c + name + d =~= t + (c + name + d));
    assert((p + a + name + b).skip(p.len() as int) =~= a + name + b);
}

/// Behind a word, a name between two signs is the name.
proof fn lemma_named(word: text::Text, name: text::Text, open: char, close: char)
    requires
        word.len() > 0,
        text::trimmed(word) == word,
        between(seq![open, close], '"', '"') || between(seq![open, close], '<', '>'),
    ensures
        ({
            let line = word + seq![' ', open] + name + seq![close];
            &&& text::trimmed(line) == line
            &&& target_of(line.skip(word.len() as int)) == name
        }),
{
    let line = word + seq![' ', open] + name + seq![close];
    let rest = line.skip(word.len() as int);
    let bare = seq![open] + name + seq![close];
    text::lemma_untrimmed(word);
    text::lemma_untrimmed(line);
    text::lemma_untrimmed(bare);
    assert(line[0] == word[0] && line.last() == close);
    assert(bare[0] == open && bare.last() == close);
    assert(rest =~= seq![' '] + bare);
    assert(text::trimmed(rest) == bare) by {
        assert(rest.skip(1) =~= bare);
        assert(text::trim_start(rest) == text::trim_start(rest.skip(1)));
    }
    assert(bare.subrange(1, bare.len() - 1) =~= name);
}

} // verus!
