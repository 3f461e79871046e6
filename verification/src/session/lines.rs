//! What the user is shown of an interactive run, line by line.
use vstd::prelude::*;
use vstd::string::*;

verus! {

/// How a piece of text is shown.
#[derive(Debug, Clone, Copy, PartialEq, Eq, Structural)]
pub enum SpanStyle {
    Plain,
    Magenta,
    MagentaBold,
    Green,
    Cyan,
    Red,
    Dim,
}

/// A piece of text.
#[derive(Debug, PartialEq, Eq)]
pub struct StyledSpan {
    pub text: String,
    pub style: SpanStyle,
}

/// A line of text.
#[derive(Debug, PartialEq, Eq)]
pub struct StyledLine {
    pub spans: Vec<StyledSpan>,
}

/// What a [`StyledSpan`] shows.
pub struct SpanModel {
    pub text: Seq<char>,
    pub style: SpanStyle,
}

impl View for StyledSpan {
    type V = SpanModel;

    open spec fn view(&self) -> SpanModel {
        SpanModel { text: self.text@, style: self.style }
    }
}

impl View for StyledLine {
    type V = Seq<SpanModel>;

    open spec fn view(&self) -> Seq<SpanModel> {
        self.spans@.map_values(|span: StyledSpan| span@)
    }
}

/// What lines show.
pub open spec fn line_models(lines: Seq<StyledLine>) -> Seq<Seq<SpanModel>> {
    lines.map_values(|line: StyledLine| line@)
}

/// A piece of text in a style.
pub open spec fn span_of(text: Seq<char>, style: SpanStyle) -> SpanModel {
    SpanModel { text, style }
}

/// The line that points to the progress document.
pub open spec fn progress_line(progress_path: Seq<char>) -> Seq<SpanModel> {
    seq![span_of("  progress: "@, SpanStyle::Dim), span_of(progress_path, SpanStyle::Cyan)]
}

/// The lines that warn of what a run may do.
pub open spec fn warning_lines() -> Seq<Seq<SpanModel>> {
    seq![
        seq![
            span_of("Automode uses "@, SpanStyle::Plain),
            span_of("danger-full-access"@, SpanStyle::Red),
            span_of(" with approval_policy=never."@, SpanStyle::Plain),
        ],
        seq![
            span_of(
                "It runs in this interactive thread until its duration expires or you interrupt it."@,
                SpanStyle::Dim,
            ),
        ],
    ]
}

/// The lines at the end of a run's time.
pub open spec fn finished_lines(progress_path: Seq<char>) -> Seq<Seq<SpanModel>> {
    seq![
        seq![
            span_of("Automode "@, SpanStyle::MagentaBold),
            span_of("duration reached."@, SpanStyle::Green),
        ],
        progress_line(progress_path),
    ]
}

/// The lines for a run that was stopped.
pub open spec fn stopped_lines(progress_path: Option<Seq<char>>) -> Seq<Seq<SpanModel>> {
    let head = seq![
        span_of("Automode "@, SpanStyle::MagentaBold),
        span_of("stopped."@, SpanStyle::Red),
    ];
    match progress_path {
        Some(path) => seq![head, progress_line(path)],
        None => seq![head],
    }
}

/// The lines for a run that begins.
pub open spec fn started_lines(
    command: Seq<char>,
    resume: bool,
    project: Seq<char>,
    progress_path: Seq<char>,
    duration: Option<Seq<char>>,
) -> Seq<Seq<SpanModel>> {
    seq![
        seq![span_of(command, SpanStyle::Magenta)],
        seq![
            span_of("Automode "@, SpanStyle::MagentaBold),
            span_of(
                if resume {
                    "resumed"@
                } else {
                    "started"@
                },
                SpanStyle::Green,
            ),
            span_of(" for "@ + project, SpanStyle::Plain),
        ],
        progress_line(progress_path),
        seq![
            span_of("  duration: "@, SpanStyle::Dim),
            match duration {
                Some(duration) => span_of(duration, SpanStyle::Plain),
                None => span_of("unlimited"@, SpanStyle::Cyan),
            },
        ],
    ] + warning_lines()
}

/// Returns a piece of text in a style.
fn span(text: &str, style: SpanStyle) -> (r: StyledSpan)
    ensures
        r@ == span_of(text@, style),
{
    StyledSpan { text: text.to_owned(), style }
}

fn line1(a: StyledSpan) -> (r: StyledLine)
    ensures
        r@ == seq![a@],
{
    let mut spans: Vec<StyledSpan> = Vec::new();
    spans.push(a);
    let r = StyledLine { spans };
    assert(r@ =~= seq![a@]);
    r
}

fn line2(a: StyledSpan, b: StyledSpan) -> (r: StyledLine)
    ensures
        r@ == seq![a@, b@],
{
    let mut spans: Vec<StyledSpan> = Vec::new();
    spans.push(a);
    spans.push(b);
    let r = StyledLine { spans };
    assert(r@ =~= seq![a@, b@]);
    r
}

fn line3(a: StyledSpan, b: StyledSpan, c: StyledSpan) -> (r: StyledLine)
    ensures
        r@ == seq![a@, b@, c@],
{
    let mut spans: Vec<StyledSpan> = Vec::new();
    spans.push(a);
    spans.push(b);
    spans.push(c);
    let r = StyledLine { spans };
    assert(r@ =~= seq![a@, b@, c@]);
    r
}

fn progress_span_line(progress_path: &str) -> (r: StyledLine)
    ensures
        r@ == progress_line(progress_path@),
{
    line2(span("  progress: ", SpanStyle::Dim), span(progress_path, SpanStyle::Cyan))
}

/// Returns the lines that warn of what a run may do.
pub fn automode_full_access_warning_lines() -> (r: Vec<StyledLine>)
    ensures
        line_models(r@) == warning_lines(),
{
    let mut r: Vec<StyledLine> = Vec::new();
    r.push(
        line3(
            span("Automode uses ", SpanStyle::Plain),
            span("danger-full-access", SpanStyle::Red),
            span(" with approval_policy=never.", SpanStyle::Plain),
        ),
    );
    r.push(
        line1(
            span(
                "It runs in this interactive thread until its duration expires or you interrupt it.",
                SpanStyle::Dim,
            ),
        ),
    );
    assert(line_models(r@) =~= warning_lines());
    r
}

/// Returns the lines at the end of a run's time.
pub fn automode_finished_lines(progress_path: &str) -> (r: Vec<StyledLine>)
    ensures
        line_models(r@) == finished_lines(progress_path@),
{
    let mut r: Vec<StyledLine> = Vec::new();
    r.push(
        line2(
            span("Automode ", SpanStyle::MagentaBold),
            span("duration reached.", SpanStyle::Green),
        ),
    );
    r.push(progress_span_line(progress_path));
    assert(line_models(r@) =~= finished_lines(progress_path@));
    r
}

/// Returns the lines for a run that was stopped.
pub fn automode_stopped_lines(progress_path: Option<&str>) -> (r: Vec<StyledLine>)
    ensures
        line_models(r@) == stopped_lines(
            match progress_path {
                Some(path) => Some(path@),
                None => None,
            },
        ),
{
    let mut r: Vec<StyledLine> = Vec::new();
    r.push(line2(span("Automode ", SpanStyle::MagentaBold), span("stopped.", SpanStyle::Red)));
    match progress_path {
        Some(path) => {
            r.push(progress_span_line(path));
            assert(line_models(r@) =~= stopped_lines(Some(path@)));
        },
        None => {
            assert(line_models(r@) =~= stopped_lines(None));
        },
    }
    r
}

/// Returns the lines for a run that begins.
pub fn automode_start_lines(
    command: &str,
    resume: bool,
    project: &str,
    progress_path: &str,
    duration: Option<String>,
) -> (r: Vec<StyledLine>)
    ensures
        line_models(r@) == started_lines(
            command@,
            resume,
            project@,
            progress_path@,
            crate::text::opt_text(duration),
        ),
{
    let action = if resume {
        "resumed"
    } else {
        "started"
    };
    let mut target = " for ".to_owned();
    target.append(project);
    let time = match &duration {
        Some(duration) => span(duration.as_str(), SpanStyle::Plain),
        None => span("unlimited", SpanStyle::Cyan),
    };
    let mut r: Vec<StyledLine> = Vec::new();
    r.push(line1(span(command, SpanStyle::Magenta)));
    r.push(
        line3(
            span("Automode ", SpanStyle::MagentaBold),
            span(action, SpanStyle::Green),
            span(target.as_str(), SpanStyle::Plain),
        ),
    );
    r.push(progress_span_line(progress_path));
    r.push(line2(span("  duration: ", SpanStyle::Dim), time));
    let mut warning = automode_full_access_warning_lines();
    let ghost head = r@;
    let ghost tail = warning@;
    r.append(&mut warning);
    assert(r@ =~= head + tail);
    assert(line_models(r@) =~= line_models(head) + line_models(tail));
    let ghost shown = started_lines(
        command@,
        resume,
        project@,
        progress_path@,
        crate::text::opt_text(duration),
    );
    assert(head[0]@ == shown[0]);
    assert(head[1]@ == shown[1]);
    assert(head[2]@ == shown[2]);
    assert(head[3]@ == shown[3]);
    assert(line_models(head) + warning_lines() =~= shown);
    r
}

} // verus!
