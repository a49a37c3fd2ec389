//! The checker used from Kakoune: it collects the errors of the open
//! buffers, then writes the commands that show them.
use vstd::prelude::*;

use crate::checker::Checker;
use crate::dictionary::Dictionary;
use crate::error::Error;
use crate::kak::io::{GOTO_PREVIOUS_BUFFER, KakouneIO, OperatingSystemIO, option_key_spec, read_var};
use crate::text::parsed_usize;
use crate::project::{Project, ProjectPath, RelativePath, join_path};
use crate::repository::{Repository, same_lists};
use crate::text::{byte_len, decimal, usize_to_string};
use crate::words::str_byte_len;

verus! {

/// The option that says whether errors are underlined.
pub const UNDERLINE_OPT: &'static str = "skyspell_underline_errors";

/// A spelling error found in a buffer.
pub struct SpellingError {
    line: usize,
    column: usize,
    buffer: String,
    full_path: String,
    token: String,
}

/// What a spelling error holds: line, column (a byte offset), buffer name,
/// full path and word.
pub struct ErrorView {
    pub line: nat,
    pub column: nat,
    pub buffer: Seq<char>,
    pub full_path: Seq<char>,
    pub token: Seq<char>,
}

impl View for SpellingError {
    type V = ErrorView;

    closed spec fn view(&self) -> ErrorView {
        ErrorView {
            line: self.line as nat,
            column: self.column as nat,
            buffer: self.buffer@,
            full_path: self.full_path@,
            token: self.token@,
        }
    }
}

/// The numbers written for an error fit in `usize`.
pub open spec fn printable(e: ErrorView) -> bool {
    e.column + byte_len(e.token) < usize::MAX
}

/// The selection of an error: `line.first,line.last`, columns counted
/// from 1.
pub open spec fn selection_text(e: ErrorView) -> Seq<char> {
    decimal(e.line) + "."@ + decimal(e.column + 1) + ","@ + decimal(e.line) + "."@ + decimal(
        (e.column + byte_len(e.token)) as nat,
    )
}

/// The line of the spelling buffer for an error: `path: selection word`.
pub open spec fn error_line_text(e: ErrorView) -> Seq<char> {
    e.full_path + ": "@ + selection_text(e) + " "@ + e.token
}

/// The range of an error in a range spec: `line.first+length|Error`.
pub open spec fn error_range_text(e: ErrorView) -> Seq<char> {
    decimal(e.line) + "."@ + decimal(e.column + 1) + "+"@ + decimal(byte_len(e.token) as nat)
        + "|Error"@
}

/// The lines of the spelling buffer for the first `n` errors.
pub open spec fn error_lines(errors: Seq<ErrorView>, n: int) -> Seq<char>
    decreases n,
{
    if n <= 0 {
        Seq::empty()
    } else {
        error_lines(errors, n - 1) + error_line_text(errors[n - 1]) + "<ret>"@
    }
}

/// The commands that fill the `*spelling*` buffer with the errors.
pub open spec fn spelling_buffer_text(errors: Seq<ErrorView>) -> Seq<char> {
    "edit -scratch *spelling*\n"@ + "execute-keys \\% <ret> d "@ + "i %{"@ + error_lines(
        errors,
        errors.len() as int,
    ) + "} "@ + "<esc> gg\n"@
}

/// The commands that start the ranges of a buffer.
pub open spec fn buffer_header(buffer: Seq<char>, timestamp: nat, underline: bool) -> Seq<char> {
    (if underline {
        "set-face buffer="@ + buffer + " Error ,,red+c\n"@
    } else {
        Seq::empty()
    }) + "set-option buffer="@ + buffer + " spell_errors "@ + decimal(timestamp) + " "@
}

/// The text written for error `i`: a new buffer header when the buffer
/// changes (ending the previous line), then the range.
pub open spec fn range_piece(errors: Seq<ErrorView>, i: int, timestamp: nat, underline: bool) -> Seq<
    char,
> {
    (if i == 0 || errors[i].buffer != errors[i - 1].buffer {
        (if i > 0 {
            "\n"@
        } else {
            Seq::empty()
        }) + buffer_header(errors[i].buffer, timestamp, underline)
    } else {
        Seq::empty()
    }) + error_range_text(errors[i]) + " "@
}

/// The text written for the first `n` errors.
pub open spec fn range_pieces(errors: Seq<ErrorView>, n: int, timestamp: nat, underline: bool) -> Seq<
    char,
>
    decreases n,
{
    if n <= 0 {
        Seq::empty()
    } else {
        range_pieces(errors, n - 1, timestamp, underline) + range_piece(
            errors,
            n - 1,
            timestamp,
            underline,
        )
    }
}

/// The commands that set the `spell_errors` option of each buffer: one
/// line per run of errors of the same buffer.
pub open spec fn ranges_text(errors: Seq<ErrorView>, timestamp: nat, underline: bool) -> Seq<char> {
    range_pieces(errors, errors.len() as int, timestamp, underline) + if errors.len() > 0 {
        "\n"@
    } else {
        Seq::empty()
    }
}

/// The commands that show how many errors were found.
pub open spec fn status_text(project_path: Seq<char>, count: nat) -> Seq<char> {
    "set global skyspell_error_count "@ + decimal(count) + "\n"@ + if count == 0 {
        "echo -markup "@ + project_path + ": {green}No spelling errors\n"@
    } else if count == 1 {
        "echo -markup "@ + project_path + ": {red}1 spelling error\n"@
    } else {
        "echo -markup "@ + project_path + ": {red}"@ + decimal(count) + " spelling errors\n"@
    }
}

/// Whether errors are to be underlined: the option is set to `true`.
pub open spec fn underline_in(env: Map<Seq<char>, Seq<char>>) -> bool {
    env.contains_key(option_key_spec(UNDERLINE_OPT@)) && env[option_key_spec(UNDERLINE_OPT@)] == "true"@
}

/// What a Kakoune check writes at its end: the spelling buffer, the way
/// back to the checked buffer, the ranges of the errors and their count.
pub open spec fn code_text(errors: Seq<ErrorView>, timestamp: nat, underline: bool, project_path: Seq<char>) -> Seq<
    char,
> {
    spelling_buffer_text(errors) + GOTO_PREVIOUS_BUFFER@ + ranges_text(errors, timestamp, underline)
        + status_text(project_path, errors.len())
}

/// The values of a list of errors.
pub open spec fn error_views(v: Seq<SpellingError>) -> Seq<ErrorView> {
    v.map_values(|e: SpellingError| e@)
}

impl SpellingError {
    /// The line of the spelling buffer for the error.
    pub fn line_text(&self) -> (r: String)
        requires
            printable(self@),
        ensures
            r@ == error_line_text(self@),
    {
        let mut s = self.full_path.clone();
        s.append(": ");
        s.append(usize_to_string(self.line).as_str());
        s.append(".");
        s.append(usize_to_string(self.column + 1).as_str());
        s.append(",");
        s.append(usize_to_string(self.line).as_str());
        s.append(".");
        let end = self.column + str_byte_len(self.token.as_str());
        s.append(usize_to_string(end).as_str());
        s.append(" ");
        s.append(self.token.as_str());
        assert(s@ =~= error_line_text(self@));
        s
    }

    /// The range of the error in a range spec.
    pub fn range_text(&self) -> (r: String)
        requires
            printable(self@),
        ensures
            r@ == error_range_text(self@),
    {
        let mut s = usize_to_string(self.line);
        s.append(".");
        s.append(usize_to_string(self.column + 1).as_str());
        s.append("+");
        s.append(usize_to_string(str_byte_len(self.token.as_str())).as_str());
        s.append("|Error");
        s
    }
}

/// The commands that fill the spelling buffer.
pub fn spelling_buffer_commands(errors: &Vec<SpellingError>) -> (r: String)
    requires
        forall|i: int| 0 <= i < errors@.len() ==> printable(#[trigger] errors@[i]@),
    ensures
        r@ == spelling_buffer_text(error_views(errors@)),
{
    let ghost ev = error_views(errors@);
    let mut s = String::from_str("edit -scratch *spelling*\n");
    s.append("execute-keys \\% <ret> d ");
    s.append("i %{");
    let ghost head = s@;
    let mut i: usize = 0;
    while i < errors.len()
        invariant
            ev == error_views(errors@),
            forall|k: int| 0 <= k < errors@.len() ==> printable(#[trigger] errors@[k]@),
            i <= errors@.len(),
            s@ == head + error_lines(ev, i as int),
        decreases errors@.len() - i,
    {
        let line = errors[i].line_text();
        s.append(line.as_str());
        s.append("<ret>");
        assert(ev[i as int] == errors@[i as int]@);
        assert(s@ =~= head + error_lines(ev, i + 1));
        i = i + 1;
    }
    s.append("} ");
    s.append("<esc> gg\n");
    s
}

/// The text written for error `i`.
fn range_piece_text(errors: &Vec<SpellingError>, i: usize, timestamp: usize, underline: bool) -> (r: String)
    requires
        i < errors@.len(),
        printable(errors@[i as int]@),
    ensures
        r@ == range_piece(error_views(errors@), i as int, timestamp as nat, underline),
{
    let ghost ev = error_views(errors@);
    let e = &errors[i];
    assert(ev[i as int] == e@);
    let starts = i == 0 || !crate::text::str_eq(e.buffer.as_str(), errors[i - 1].buffer.as_str());
    if i > 0 {
        assert(ev[i - 1] == errors@[i - 1]@);
    }
    let mut s = String::new();
    if starts {
        if i > 0 {
            s.append("\n");
        }
        if underline {
            s.append("set-face buffer=");
            s.append(e.buffer.as_str());
            s.append(" Error ,,red+c\n");
        }
        s.append("set-option buffer=");
        s.append(e.buffer.as_str());
        s.append(" spell_errors ");
        s.append(usize_to_string(timestamp).as_str());
        s.append(" ");
    }
    s.append(e.range_text().as_str());
    s.append(" ");
    assert(s@ =~= range_piece(ev, i as int, timestamp as nat, underline));
    s
}

/// The commands that set the ranges of the errors, buffer by buffer.
pub fn ranges_commands(errors: &Vec<SpellingError>, timestamp: usize, underline: bool) -> (r: String)
    requires
        forall|i: int| 0 <= i < errors@.len() ==> printable(#[trigger] errors@[i]@),
    ensures
        r@ == ranges_text(error_views(errors@), timestamp as nat, underline),
{
    let ghost ev = error_views(errors@);
    let mut s = String::new();
    let mut i: usize = 0;
    while i < errors.len()
        invariant
            ev == error_views(errors@),
            forall|k: int| 0 <= k < errors@.len() ==> printable(#[trigger] errors@[k]@),
            i <= errors@.len(),
            s@ == range_pieces(ev, i as int, timestamp as nat, underline),
        decreases errors@.len() - i,
    {
        let piece = range_piece_text(errors, i, timestamp, underline);
        s.append(piece.as_str());
        i = i + 1;
    }
    if errors.len() > 0 {
        s.append("\n");
    }
    assert(s@ =~= ranges_text(ev, timestamp as nat, underline));
    s
}

/// The commands that show how many errors were found.
pub fn status_commands(project_path: &str, count: usize) -> (r: String)
    ensures
        r@ == status_text(project_path@, count as nat),
{
    let mut s = String::from_str("set global skyspell_error_count ");
    s.append(usize_to_string(count).as_str());
    s.append("\n");
    s.append("echo -markup ");
    s.append(project_path);
    if count == 0 {
        s.append(": {green}No spelling errors\n");
    } else if count == 1 {
        s.append(": {red}1 spelling error\n");
    } else {
        s.append(": {red}");
        s.append(usize_to_string(count).as_str());
        s.append(" spelling errors\n");
    }
    s
}

/// The spelling errors found so far; each of them can be written.
pub struct ErrorList {
    errors: Vec<SpellingError>,
}

impl ErrorList {
    #[verifier::type_invariant]
    closed spec fn printable_errors(&self) -> bool {
        forall|i: int| 0 <= i < self.errors@.len() ==> printable(#[trigger] self.errors@[i]@)
    }

    /// The errors, in the order they were found.
    pub closed spec fn view_errors(&self) -> Seq<ErrorView> {
        error_views(self.errors@)
    }

    /// No error.
    pub fn new() -> (r: Self)
        ensures
            r.view_errors() == Seq::<ErrorView>::empty(),
    {
        let r = ErrorList { errors: Vec::new() };
        assert(r.view_errors() =~= Seq::<ErrorView>::empty());
        r
    }

    /// Adds an error.
    pub fn push(&mut self, e: SpellingError)
        requires
            printable(e@),
        ensures
            final(self).view_errors() == old(self).view_errors().push(e@),
    {
        proof {
            use_type_invariant(&*self);
        }
        let mut v: Vec<SpellingError> = Vec::new();
        std::mem::swap(&mut v, &mut self.errors);
        v.push(e);
        self.errors = v;
        proof {
            assert(self.view_errors() =~= old(self).view_errors().push(e@));
        }
    }

    /// The number of errors.
    pub fn len(&self) -> (r: usize)
        ensures
            r == self.view_errors().len(),
    {
        self.errors.len()
    }

    /// The commands that fill the spelling buffer.
    pub fn spelling_buffer(&self) -> (r: String)
        ensures
            r@ == spelling_buffer_text(self.view_errors()),
    {
        proof {
            use_type_invariant(self);
        }
        spelling_buffer_commands(&self.errors)
    }

    /// The commands that set the ranges of the errors.
    pub fn ranges(&self, timestamp: usize, underline: bool) -> (r: String)
        ensures
            r@ == ranges_text(self.view_errors(), timestamp as nat, underline),
    {
        proof {
            use_type_invariant(self);
        }
        ranges_commands(&self.errors, timestamp, underline)
    }
}

/// The checker used from Kakoune.
pub struct KakouneChecker<D: Dictionary, R: Repository, S: OperatingSystemIO> {
    kakoune_io: KakouneIO<S>,
    repository: R,
    project: Project,
    dictionary: D,
    errors: ErrorList,
}

impl<D: Dictionary, R: Repository, S: OperatingSystemIO> KakouneChecker<D, R, S> {
    /// The errors found so far.
    pub closed spec fn errors(&self) -> Seq<ErrorView> {
        self.errors.view_errors()
    }

    /// The project being checked.
    pub open spec fn project_spec(&self) -> &Project {
        &self.project_view()
    }

    /// A checker of the project, which is created in the repository when it
    /// does not exist yet.
    pub fn new(project_path: ProjectPath, dictionary: D, repository: R, kakoune_io: KakouneIO<S>) -> (r:
        Result<Self, Error>)
        ensures
            r matches Ok(c) ==> c.errors() == Seq::<ErrorView>::empty() && c.project_spec().path()@
                == project_path@ && c.dictionary_view() == dictionary && c.kakoune_io_spec() == kakoune_io
                && c.repository_spec().model().projects.contains(
                (c.project_view().id() as int, project_path@),
            ) && repository.model().projects.subset_of(c.repository_spec().model().projects)
                && same_lists(repository.model(), c.repository_spec().model()),
    {
        let mut repository = repository;
        let project = repository.ensure_project(&project_path)?;
        Ok(KakouneChecker { kakoune_io, repository, project, dictionary, errors: ErrorList::new() })
    }

    /// How Kakoune is reached.
    pub closed spec fn kakoune_io_spec(&self) -> KakouneIO<S> {
        self.kakoune_io
    }

    /// How Kakoune is reached.
    pub fn kakoune_io(&self) -> (r: &KakouneIO<S>)
        ensures
            *r == self.kakoune_io_spec(),
    {
        &self.kakoune_io
    }

    /// The repository, for changes.
    pub fn repository_mut(&mut self) -> (r: &mut R)
        ensures
            *r == old(self).repository_spec(),
            final(self).repository_spec() == *final(r),
            final(self).errors() == old(self).errors(),
            final(self).project_spec() == old(self).project_spec(),
            final(self).project_view() == old(self).project_view(),
            final(self).kakoune_io_spec() == old(self).kakoune_io_spec(),
    {
        &mut self.repository
    }

    /// The dictionary, for changes.
    pub fn dictionary_mut(&mut self) -> (r: &mut D)
        ensures
            *r == old(self).dictionary_view(),
            final(self).dictionary_view() == *final(r),
            final(self).errors() == old(self).errors(),
            final(self).repository_spec() == old(self).repository_spec(),
            final(self).project_view() == old(self).project_view(),
            final(self).kakoune_io_spec() == old(self).kakoune_io_spec(),
    {
        &mut self.dictionary
    }

    /// The number of errors found so far.
    pub fn error_count(&self) -> (r: usize)
        ensures
            r == self.errors().len(),
    {
        self.errors.len()
    }

    /// Writes a command.
    pub fn print(&self, command: &str) {
        self.kakoune_io.print(command)
    }

    /// Fills the spelling buffer, sets the ranges of the buffers and shows
    /// the count of errors; gives back all it wrote.
    pub fn write_code(&self) -> (r: Result<String, Error>)
        ensures
            r is Ok ==> exists|t: Seq<char>|
                read_var(self.kakoune_io_spec().env(), "kak_timestamp"@, t) && parsed_usize(t) is Some,
            !(self.kakoune_io_spec().env().contains_key("kak_timestamp"@) && parsed_usize(
                self.kakoune_io_spec().env()["kak_timestamp"@],
            ) is Some) ==> r is Err,
            r matches Ok(s) ==> s@ == code_text(
                self.errors(),
                parsed_usize(self.kakoune_io_spec().env()["kak_timestamp"@])->0 as nat,
                underline_in(self.kakoune_io_spec().env()),
                self.project_view().path()@,
            ),
    {
        let kak_timestamp = self.kakoune_io.get_timestamp()?;
        assert(self.kakoune_io_spec() == self.kakoune_io);
        let mut out = self.write_spelling_buffer();
        let back = self.kakoune_io.goto_previous_buffer();
        out.append(back.as_str());
        let ranges = self.write_ranges(kak_timestamp)?;
        out.append(ranges.as_str());
        let status = self.write_status();
        out.append(status.as_str());
        Ok(out)
    }

    /// The commands that show the count of errors.
    pub fn status(&self) -> (r: String)
        ensures
            r@ == status_text(self.project_view().path()@, self.errors().len()),
    {
        status_commands(self.project.path().as_str(), self.errors.len())
    }

    /// The commands that fill the spelling buffer with the errors.
    pub fn spelling_buffer(&self) -> (r: String)
        ensures
            r@ == spelling_buffer_text(self.errors()),
    {
        self.errors.spelling_buffer()
    }

    /// Shows the count of errors: writes the commands of `status`, and
    /// gives them back.
    pub fn write_status(&self) -> (r: String)
        ensures
            r@ == status_text(self.project_view().path()@, self.errors().len()),
    {
        let text = self.status();
        self.print(text.as_str());
        text
    }

    /// Fills the spelling buffer with the errors: writes the commands of
    /// `spelling_buffer`, and gives them back.
    pub fn write_spelling_buffer(&self) -> (r: String)
        ensures
            r@ == spelling_buffer_text(self.errors()),
    {
        let text = self.spelling_buffer();
        self.print(text.as_str());
        text
    }

    /// Sets the ranges of the errors, buffer by buffer; asks whether errors
    /// are underlined only when there is an error. Gives back what it wrote.
    pub fn write_ranges(&self, timestamp: usize) -> (r: Result<String, Error>)
        ensures
            self.errors().len() == 0 ==> r is Ok,
            self.errors().len() > 0 && r is Ok ==> exists|v: Seq<char>|
                read_var(self.kakoune_io_spec().env(), option_key_spec(UNDERLINE_OPT@), v) && (v
                    == "true"@ || v == "false"@),
            r matches Ok(s) ==> s@ == ranges_text(
                self.errors(),
                timestamp as nat,
                underline_in(self.kakoune_io_spec().env()),
            ),
    {
        let underline = if self.errors.len() > 0 {
            let b = self.kakoune_io.get_boolean_option(UNDERLINE_OPT)?;
            proof {
                let v = if b {
                    "true"@
                } else {
                    "false"@
                };
                assert(self.kakoune_io_spec() == self.kakoune_io);
                assert(read_var(self.kakoune_io_spec().env(), option_key_spec(UNDERLINE_OPT@), v));
                reveal_strlit("true");
                reveal_strlit("false");
                assert("true"@ != "false"@) by {
                    assert("true"@[0] != "false"@[0]);
                }
            }
            b
        } else {
            false
        };
        proof {
            if self.errors().len() == 0 {
                assert(ranges_text(self.errors(), timestamp as nat, underline) =~= ranges_text(
                    self.errors(),
                    timestamp as nat,
                    underline_in(self.kakoune_io_spec().env()),
                ));
            }
        }
        let text = self.errors.ranges(timestamp, underline);
        self.print(text.as_str());
        Ok(text)
    }
}

impl<D: Dictionary, R: Repository, S: OperatingSystemIO> Checker for KakouneChecker<D, R, S> {
    type Context = (String, usize, usize);

    type Dict = D;

    type Repo = R;

    fn handle_error(&mut self, error: &str, path: &RelativePath, context: &Self::Context) -> (r:
        Result<(), Error>)
        ensures
            r is Ok ==> final(self).errors() == old(self).errors().push(
                ErrorView {
                    line: context.1 as nat,
                    column: context.2 as nat,
                    buffer: context.0@,
                    full_path: join_path(old(self).project_spec().path()@, path@),
                    token: error@,
                },
            ),
            r is Err ==> final(self).errors() == old(self).errors() && context.2 + byte_len(error@) >= usize::MAX,
    {
        let (buffer, line, column) = context;
        let len = str_byte_len(error);
        if *column >= usize::MAX - len {
            return Err(Error::Outside(String::from_str("the column of the error is too large")));
        }
        let full_path = self.project.path().join(path);
        let e = SpellingError {
            line: *line,
            column: *column,
            buffer: buffer.clone(),
            full_path,
            token: String::from_str(error),
        };
        self.errors.push(e);
        Ok(())
    }

    open spec fn succeeded(&self) -> bool {
        true
    }

    fn success(&self) -> (r: Result<(), Error>)
        ensures
            r is Ok,
    {
        Ok(())
    }

    open spec fn handled(
        &self,
        after: Self,
        error: Seq<char>,
        path: Seq<char>,
        context: (String, usize, usize),
    ) -> bool {
        &&& after.errors() == self.errors().push(
            ErrorView {
                line: context.1 as nat,
                column: context.2 as nat,
                buffer: context.0@,
                full_path: join_path(self.project_view().path()@, path),
                token: error,
            },
        )
        &&& after.repository_spec() == self.repository_spec()
        &&& after.dictionary_view() == self.dictionary_view()
        &&& after.project_view() == self.project_view()
        &&& after.kakoune_io_spec() == self.kakoune_io_spec()
    }

    closed spec fn repository_spec(&self) -> R {
        self.repository
    }

    closed spec fn project_view(&self) -> Project {
        self.project
    }

    closed spec fn dictionary_view(&self) -> D {
        self.dictionary
    }

    fn repository(&self) -> &R {
        &self.repository
    }

    fn dictionary(&self) -> &D {
        assert(self.dictionary_view() == self.dictionary);
        &self.dictionary
    }

    fn project(&self) -> &Project {
        &self.project
    }
}

} // verus!
