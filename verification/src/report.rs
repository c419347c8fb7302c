//! How the results of updates are shown.
use vstd::prelude::*;

use crate::error::UpdateError;
use crate::text;
use crate::text::decimal_text;
use crate::update::UpdateResult;

verus! {

/// The symbols of the output.
#[derive(Debug)]
pub struct Glyphs {
    /// Success, or up to date.
    pub ok: &'static str,
    /// An error.
    pub error: &'static str,
    /// An update.
    pub updated: &'static str,
    /// Between two versions.
    pub arrow: &'static str,
    /// Up to date, in a dry run.
    pub dot: &'static str,
    /// The frames of the spinner.
    pub spinner: Vec<&'static str>,
    /// What fills a progress bar.
    pub progress_chars: &'static str,
}

/// The texts of the spinner frames.
pub open spec fn frames(spinner: Seq<&'static str>) -> Seq<Seq<char>> {
    spinner.map_values(|f: &'static str| f@)
}

impl Glyphs {
    /// The symbols of ASCII output.
    pub open spec fn ascii(self) -> bool {
        &&& self.ok@ == "ok"@
        &&& self.error@ == "x"@
        &&& self.updated@ == "^"@
        &&& self.arrow@ == "->"@
        &&& self.dot@ == "."@
        &&& frames(self.spinner@) == seq![
            "|"@,
            "/"@,
            "-"@,
            "\\"@,
            "|"@,
            "/"@,
            "-"@,
            "\\"@,
            " "@,
        ]
        &&& self.progress_chars@ == "=> "@
    }

    /// The symbols of Unicode output.
    pub open spec fn unicode(self) -> bool {
        &&& self.ok@ == "✓"@
        &&& self.error@ == "✗"@
        &&& self.updated@ == "↑"@
        &&& self.arrow@ == "→"@
        &&& self.dot@ == "·"@
        &&& frames(self.spinner@) == seq![
            "⠋"@,
            "⠙"@,
            "⠹"@,
            "⠸"@,
            "⠼"@,
            "⠴"@,
            "⠦"@,
            "⠧"@,
            "⠇"@,
            "⠏"@,
        ]
        &&& self.progress_chars@ == "█▉▊▋▌▍▎▏ "@
    }

    /// The symbols of ASCII output, or those of Unicode output.
    pub fn new(no_unicode: bool) -> (r: Glyphs)
        ensures
            no_unicode ==> r.ascii(),
            !no_unicode ==> r.unicode(),
            r.ok@ == (if no_unicode { "ok"@ } else { "✓"@ }),
            r.error@ == (if no_unicode { "x"@ } else { "✗"@ }),
            r.updated@ == (if no_unicode { "^"@ } else { "↑"@ }),
            r.arrow@ == (if no_unicode { "->"@ } else { "→"@ }),
            r.dot@ == (if no_unicode { "."@ } else { "·"@ }),
            r.progress_chars@ == (if no_unicode { "=> "@ } else { "█▉▊▋▌▍▎▏ "@ }),
            !no_unicode ==> frames(r.spinner@) == seq![
                "⠋"@,
                "⠙"@,
                "⠹"@,
                "⠸"@,
                "⠼"@,
                "⠴"@,
                "⠦"@,
                "⠧"@,
                "⠇"@,
                "⠏"@,
            ],
            no_unicode ==> frames(r.spinner@) == seq![
                "|"@,
                "/"@,
                "-"@,
                "\\"@,
                "|"@,
                "/"@,
                "-"@,
                "\\"@,
                " "@,
            ],
    {
        if no_unicode {
            let spinner: Vec<&'static str> = vec!["|", "/", "-", "\\", "|", "/", "-", "\\", " "];
            assert(frames(spinner@) =~= seq![
                "|"@,
                "/"@,
                "-"@,
                "\\"@,
                "|"@,
                "/"@,
                "-"@,
                "\\"@,
                " "@,
            ]);
            Glyphs {
                ok: "ok",
                error: "x",
                updated: "^",
                arrow: "->",
                dot: ".",
                spinner,
                progress_chars: "=> ",
            }
        } else {
            let spinner: Vec<&'static str> = vec![
                "⠋",
                "⠙",
                "⠹",
                "⠸",
                "⠼",
                "⠴",
                "⠦",
                "⠧",
                "⠇",
                "⠏",
            ];
            assert(frames(spinner@) =~= seq![
                "⠋"@,
                "⠙"@,
                "⠹"@,
                "⠸"@,
                "⠼"@,
                "⠴"@,
                "⠦"@,
                "⠧"@,
                "⠇"@,
                "⠏"@,
            ]);
            Glyphs {
                ok: "✓",
                error: "✗",
                updated: "↑",
                arrow: "→",
                dot: "·",
                spinner,
                progress_chars: "█▉▊▋▌▍▎▏ ",
            }
        }
    }
}

/// How a piece of output looks.
#[derive(Debug, Clone, Copy, PartialEq, Eq, Structural)]
pub enum Style {
    Plain,
    Bold,
    Dim,
    Green,
    Cyan,
    Yellow,
    Red,
}

/// A piece of output.
#[derive(Debug, PartialEq, Eq)]
pub struct Span {
    pub text: String,
    pub style: Style,
}

/// The texts and styles of pieces of output.
pub open spec fn spans_view(spans: Seq<Span>) -> Seq<(Seq<char>, Style)> {
    spans.map_values(|s: Span| (s.text@, s.style))
}

/// One line of output.
#[derive(Debug, PartialEq, Eq)]
pub struct Line {
    pub spans: Vec<Span>,
    /// Whether the line tells of an error, and goes to the error output.
    pub is_error: bool,
}

impl Line {
    /// Adds a piece to the line.
    fn say(&mut self, text: &str, style: Style)
        ensures
            spans_view(final(self).spans@) == spans_view(old(self).spans@).push((text@, style)),
            final(self).is_error == old(self).is_error,
    {
        let ghost before = self.spans@;
        self.spans.push(Span { text: text.to_string(), style });
        assert(spans_view(self.spans@) =~= spans_view(before).push((text@, style)));
    }
}

/// The pieces of the line for the result of an update: a symbol, the name of the
/// tool, and what became of it.
pub open spec fn shown(
    label: Seq<char>,
    result: Result<UpdateResult, UpdateError>,
    g: Glyphs,
) -> Seq<(Seq<char>, Style)> {
    let name = (label, Style::Bold);
    let gap = (" "@, Style::Plain);
    match result {
        Ok(UpdateResult::UpToDate(v)) => seq![
            (g.ok@, Style::Green),
            gap,
            name,
            (" up to date ("@, Style::Plain),
            (v@, Style::Plain),
            (")"@, Style::Plain),
        ],
        Ok(UpdateResult::Updated { from, to }) => seq![
            (g.updated@, Style::Cyan),
            gap,
            name,
            gap,
            (from@, Style::Dim),
            gap,
            (g.arrow@, Style::Plain),
            gap,
            (to@, Style::Green),
        ],
        Ok(UpdateResult::Installed(v)) => seq![
            (g.ok@, Style::Green),
            gap,
            name,
            (" installed ("@, Style::Plain),
            (v@, Style::Plain),
            (")"@, Style::Plain),
        ],
        Ok(UpdateResult::DryRun { current, latest, due }) => if !due {
            seq![
                (g.dot@, Style::Dim),
                gap,
                name,
                (" up to date ("@, Style::Plain),
                (
                    match text::text_of(current) {
                        Some(c) => c,
                        None => latest@,
                    },
                    Style::Plain,
                ),
                (")"@, Style::Plain),
            ]
        } else {
            seq![
                (g.arrow@, Style::Yellow),
                gap,
                name,
                (" would update: "@, Style::Plain),
                (
                    match text::text_of(current) {
                        Some(c) => c,
                        None => "not installed"@,
                    },
                    Style::Dim,
                ),
                gap,
                (g.arrow@, Style::Plain),
                gap,
                (latest@, Style::Green),
            ]
        },
        Err(error) => seq![
            (g.error@, Style::Red),
            gap,
            name,
            (": "@, Style::Plain),
            (text::joined(error.told(), ": "@), Style::Plain),
        ],
    }
}

/// The line that tells the result of an update of the tool `label`. It tells of
/// an error where the update came to one.
pub fn print_update_result(
    label: &str,
    result: Result<UpdateResult, UpdateError>,
    g: &Glyphs,
) -> (r: Line)
    ensures
        spans_view(r.spans@) == shown(label@, result, *g),
        r.is_error == result is Err,
{
    let mut line: Line = Line { spans: Vec::new(), is_error: result.is_err() };
    assert(spans_view(line.spans@) =~= seq![]);
    match result {
        Ok(UpdateResult::UpToDate(v)) => {
            line.say(g.ok, Style::Green);
            line.say(" ", Style::Plain);
            line.say(label, Style::Bold);
            line.say(" up to date (", Style::Plain);
            line.say(v.as_str(), Style::Plain);
            line.say(")", Style::Plain);
        },
        Ok(UpdateResult::Updated { from, to }) => {
            line.say(g.updated, Style::Cyan);
            line.say(" ", Style::Plain);
            line.say(label, Style::Bold);
            line.say(" ", Style::Plain);
            line.say(from.as_str(), Style::Dim);
            line.say(" ", Style::Plain);
            line.say(g.arrow, Style::Plain);
            line.say(" ", Style::Plain);
            line.say(to.as_str(), Style::Green);
        },
        Ok(UpdateResult::Installed(v)) => {
            line.say(g.ok, Style::Green);
            line.say(" ", Style::Plain);
            line.say(label, Style::Bold);
            line.say(" installed (", Style::Plain);
            line.say(v.as_str(), Style::Plain);
            line.say(")", Style::Plain);
        },
        Ok(UpdateResult::DryRun { current, latest, due }) => {
            if !due {
                line.say(g.dot, Style::Dim);
                line.say(" ", Style::Plain);
                line.say(label, Style::Bold);
                line.say(" up to date (", Style::Plain);
                match &current {
                    Some(c) => {
                        line.say(c.as_str(), Style::Plain);
                    },
                    None => {
                        line.say(latest.as_str(), Style::Plain);
                    },
                }
                line.say(")", Style::Plain);
            } else {
                line.say(g.arrow, Style::Yellow);
                line.say(" ", Style::Plain);
                line.say(label, Style::Bold);
                line.say(" would update: ", Style::Plain);
                match &current {
                    Some(c) => {
                        line.say(c.as_str(), Style::Dim);
                    },
                    None => {
                        line.say("not installed", Style::Dim);
                    },
                }
                line.say(" ", Style::Plain);
                line.say(g.arrow, Style::Plain);
                line.say(" ", Style::Plain);
                line.say(latest.as_str(), Style::Green);
            }
        },
        Err(error) => {
            line.say(g.error, Style::Red);
            line.say(" ", Style::Plain);
            line.say(label, Style::Bold);
            line.say(": ", Style::Plain);
            line.say(error.message().as_str(), Style::Plain);
        },
    }
    assert(spans_view(line.spans@) =~= shown(label@, result, *g));
    line
}

/// How many of the lines tell of an error.
pub open spec fn errors_in(lines: Seq<Line>) -> nat
    decreases lines.len(),
{
    if lines.len() == 0 {
        0
    } else {
        errors_in(lines.drop_last()) + if lines.last().is_error {
            1nat
        } else {
            0nat
        }
    }
}

/// The message with which the updater fails after these lines: how many tools
/// failed, if any did.
pub fn failure_message(lines: &Vec<Line>) -> (r: Option<String>)
    ensures
        r is Some <==> exists|i: int| 0 <= i < lines@.len() && (#[trigger] lines@[i]).is_error,
        r matches Some(m) ==> m@ == text::decimal(errors_in(lines@))
            + " tool(s) failed to update"@,
{
    let mut errors: u64 = 0;
    let mut i: usize = 0;
    while i < lines.len()
        invariant
            i <= lines@.len(),
            errors <= i,
            errors == errors_in(lines@.take(i as int)),
            errors > 0 <==> exists|j: int| 0 <= j < i && (#[trigger] lines@[j]).is_error,
        decreases lines@.len() - i,
    {
        assert(lines@.take(i + 1).drop_last() =~= lines@.take(i as int));
        if lines[i].is_error {
            errors = errors + 1;
        }
        i = i + 1;
    }
    assert(lines@.take(i as int) =~= lines@);
    if errors > 0 {
        let mut r: String = decimal_text(errors);
        r.append(" tool(s) failed to update");
        Some(r)
    } else {
        None
    }
}

/// The line that announces a dry run.
pub open spec fn notice(no_unicode: bool) -> Seq<char> {
    if no_unicode {
        "Dry-run mode - nothing will be downloaded."@
    } else {
        "Dry-run mode — nothing will be downloaded."@
    }
}

/// The line that announces a dry run.
pub fn dry_run_notice(no_unicode: bool) -> (r: Line)
    ensures
        spans_view(r.spans@) == seq![(notice(no_unicode), Style::Yellow)],
        !r.is_error,
{
    let mut line: Line = Line { spans: Vec::new(), is_error: false };
    if no_unicode {
        line.say("Dry-run mode - nothing will be downloaded.", Style::Yellow);
    } else {
        line.say("Dry-run mode — nothing will be downloaded.", Style::Yellow);
    }
    line
}

/// All pieces of output are ASCII.
pub open spec fn all_ascii(spans: Seq<(Seq<char>, Style)>) -> bool {
    forall|i: int|
        0 <= i < spans.len() ==> vstd::utf8::is_ascii_chars((#[trigger] spans[i]).0)
}

/// What a result has to tell is ASCII.
pub open spec fn ascii_result(result: Result<UpdateResult, UpdateError>) -> bool {
    match result {
        Ok(UpdateResult::UpToDate(v)) => vstd::utf8::is_ascii_chars(v@),
        Ok(UpdateResult::Updated { from, to }) => vstd::utf8::is_ascii_chars(from@)
            && vstd::utf8::is_ascii_chars(to@),
        Ok(UpdateResult::Installed(v)) => vstd::utf8::is_ascii_chars(v@),
        Ok(UpdateResult::DryRun { current, latest, .. }) => vstd::utf8::is_ascii_chars(latest@) && (
        current matches Some(c) ==> vstd::utf8::is_ascii_chars(c@)),
        Err(error) => vstd::utf8::is_ascii_chars(text::joined(error.told(), ": "@)),
    }
}

/// With the symbols of ASCII output the output is ASCII, wherever the name of the
/// tool and what its update came to are.
pub proof fn ascii_output_is_ascii(
    label: Seq<char>,
    result: Result<UpdateResult, UpdateError>,
    g: Glyphs,
)
    requires
        g.ascii(),
        vstd::utf8::is_ascii_chars(label),
        ascii_result(result),
    ensures
        all_ascii(shown(label, result, g)),
        vstd::utf8::is_ascii_chars(notice(true)),
{
    reveal_strlit("ok");
    reveal_strlit("x");
    reveal_strlit("^");
    reveal_strlit("->");
    reveal_strlit(".");
    reveal_strlit(" ");
    reveal_strlit(" up to date (");
    reveal_strlit(")");
    reveal_strlit(" installed (");
    reveal_strlit(" would update: ");
    reveal_strlit("not installed");
    reveal_strlit(": ");
    reveal_strlit("Dry-run mode - nothing will be downloaded.");
    assert(vstd::utf8::is_ascii_chars(" "@));
    assert(vstd::utf8::is_ascii_chars(g.ok@));
    assert(vstd::utf8::is_ascii_chars(g.error@));
    assert(vstd::utf8::is_ascii_chars(g.updated@));
    assert(vstd::utf8::is_ascii_chars(g.arrow@));
    assert(vstd::utf8::is_ascii_chars(g.dot@));
}

/// What a line reads, without its styles.
pub open spec fn reading(spans: Seq<(Seq<char>, Style)>) -> Seq<char>
    decreases spans.len(),
{
    if spans.len() == 0 {
        Seq::empty()
    } else {
        reading(spans.drop_last()) + spans.last().0
    }
}

proof fn reading_of_six(spans: Seq<(Seq<char>, Style)>)
    requires
        spans.len() == 6,
    ensures
        reading(spans) == spans[0].0 + spans[1].0 + spans[2].0 + spans[3].0 + spans[4].0
            + spans[5].0,
{
    reveal_with_fuel(reading, 8);
    assert(reading(spans) =~= spans[0].0 + spans[1].0 + spans[2].0 + spans[3].0 + spans[4].0
        + spans[5].0);
}

proof fn reading_of_five(spans: Seq<(Seq<char>, Style)>)
    requires
        spans.len() == 5,
    ensures
        reading(spans) == spans[0].0 + spans[1].0 + spans[2].0 + spans[3].0 + spans[4].0,
{
    reveal_with_fuel(reading, 7);
    assert(reading(spans) =~= spans[0].0 + spans[1].0 + spans[2].0 + spans[3].0 + spans[4].0);
}

proof fn reading_of_nine(spans: Seq<(Seq<char>, Style)>)
    requires
        spans.len() == 9,
    ensures
        reading(spans) == spans[0].0 + spans[1].0 + spans[2].0 + spans[3].0 + spans[4].0
            + spans[5].0 + spans[6].0 + spans[7].0 + spans[8].0,
{
    reveal_with_fuel(reading, 11);
    assert(reading(spans) =~= spans[0].0 + spans[1].0 + spans[2].0 + spans[3].0 + spans[4].0
        + spans[5].0 + spans[6].0 + spans[7].0 + spans[8].0);
}

/// A line reads as a sentence that holds the name of the tool and the versions, each
/// in full and in its place.
pub proof fn lines_read_as_sentences(
    label: Seq<char>,
    v: String,
    from: String,
    to: String,
    error: UpdateError,
    g: Glyphs,
)
    ensures
        reading(shown(label, Ok(UpdateResult::UpToDate(v)), g)) == g.ok@ + " "@ + label
            + " up to date ("@ + v@ + ")"@,
        reading(shown(label, Ok(UpdateResult::Installed(v)), g)) == g.ok@ + " "@ + label
            + " installed ("@ + v@ + ")"@,
        reading(shown(label, Ok(UpdateResult::Updated { from, to }), g)) == g.updated@ + " "@
            + label + " "@ + from@ + " "@ + g.arrow@ + " "@ + to@,
        reading(
            shown(
                label,
                Ok(UpdateResult::DryRun { current: Some(from), latest: to, due: true }),
                g,
            ),
        ) == g.arrow@ + " "@ + label + " would update: "@ + from@ + " "@ + g.arrow@ + " "@ + to@,
        reading(
            shown(label, Ok(UpdateResult::DryRun { current: None, latest: to, due: true }), g),
        ) == g.arrow@ + " "@ + label + " would update: "@ + "not installed"@ + " "@ + g.arrow@
            + " "@ + to@,
        reading(
            shown(
                label,
                Ok(UpdateResult::DryRun { current: Some(from), latest: to, due: false }),
                g,
            ),
        ) == g.dot@ + " "@ + label + " up to date ("@ + from@ + ")"@,
        reading(shown(label, Err(error), g)) == g.error@ + " "@ + label + ": "@ + text::joined(
            error.told(),
            ": "@,
        ),
{
    reading_of_six(shown(label, Ok(UpdateResult::UpToDate(v)), g));
    reading_of_six(shown(label, Ok(UpdateResult::Installed(v)), g));
    reading_of_nine(shown(label, Ok(UpdateResult::Updated { from, to }), g));
    reading_of_nine(
        shown(label, Ok(UpdateResult::DryRun { current: Some(from), latest: to, due: true }), g),
    );
    reading_of_nine(
        shown(label, Ok(UpdateResult::DryRun { current: None, latest: to, due: true }), g),
    );
    reading_of_six(
        shown(label, Ok(UpdateResult::DryRun { current: Some(from), latest: to, due: false }), g),
    );
    reading_of_five(shown(label, Err(error), g));
}

/// In every line the symbol has the color of the result and the name of the tool is
/// bold; a version that is left behind is dim, and one that takes its place green;
/// all else is plain.
pub proof fn lines_are_styled_by_their_result(
    label: Seq<char>,
    result: Result<UpdateResult, UpdateError>,
    g: Glyphs,
    i: int,
)
    requires
        0 <= i < shown(label, result, g).len(),
    ensures
        i == 0 ==> shown(label, result, g)[i].1 == (match result {
            Ok(UpdateResult::UpToDate(_)) => Style::Green,
            Ok(UpdateResult::Updated { .. }) => Style::Cyan,
            Ok(UpdateResult::Installed(_)) => Style::Green,
            Ok(UpdateResult::DryRun { due, .. }) => if due {
                Style::Yellow
            } else {
                Style::Dim
            },
            Err(_) => Style::Red,
        }),
        i == 2 ==> shown(label, result, g)[i] == (label, Style::Bold),
        i == 4 && shown(label, result, g).len() == 9 ==> shown(label, result, g)[i].1 == Style::Dim,
        i == 8 ==> shown(label, result, g)[i].1 == Style::Green,
        i != 0 && i != 2 && i != 8 && !(i == 4 && shown(label, result, g).len() == 9) ==> shown(
            label,
            result,
            g,
        )[i].1 == Style::Plain,
{
}

/// Failures add up: those of two groups of lines are those of all of them, and each
/// line counts once, where it tells of an error.
pub proof fn failures_add_up(a: Seq<Line>, b: Seq<Line>, line: Line)
    ensures
        errors_in(a + b) == errors_in(a) + errors_in(b),
        errors_in(seq![line]) == (if line.is_error {
            1nat
        } else {
            0nat
        }),
        errors_in(Seq::empty()) == 0,
    decreases b.len(),
{
    assert(seq![line].drop_last() =~= Seq::<Line>::empty());
    assert(errors_in(Seq::<Line>::empty()) == 0);
    if b.len() == 0 {
        assert(a + b =~= a);
    } else {
        assert((a + b).drop_last() =~= a + b.drop_last());
        assert((a + b).last() == b.last());
        failures_add_up(a, b.drop_last(), line);
    }
}

/// The notice of a dry run differs between the two kinds of output in its dash only.
pub proof fn notices_differ_in_the_dash()
    ensures
        notice(true) == "Dry-run mode "@ + "-"@ + " nothing will be downloaded."@,
        notice(false) == "Dry-run mode "@ + "—"@ + " nothing will be downloaded."@,
{
    reveal_strlit("Dry-run mode - nothing will be downloaded.");
    reveal_strlit("Dry-run mode — nothing will be downloaded.");
    reveal_strlit("Dry-run mode ");
    reveal_strlit("-");
    reveal_strlit("—");
    reveal_strlit(" nothing will be downloaded.");
    assert(notice(true) =~= "Dry-run mode "@ + "-"@ + " nothing will be downloaded."@);
    assert(notice(false) =~= "Dry-run mode "@ + "—"@ + " nothing will be downloaded."@);
}

/// The views of output show its pieces and frames.
pub proof fn output_is_shown_as_it_is(spans: Seq<Span>, spinner: Seq<&'static str>, i: int)
    ensures
        spans_view(spans).len() == spans.len(),
        0 <= i < spans.len() ==> spans_view(spans)[i] == (spans[i].text@, spans[i].style),
        frames(spinner).len() == spinner.len(),
        0 <= i < spinner.len() ==> frames(spinner)[i] == spinner[i]@,
{
}

/// A dry run without an installed version that calls for no update names the latest
/// version; one that calls for an update says so.
pub proof fn dry_runs_say_what_is_due(
    label: Seq<char>,
    current: Option<String>,
    latest: String,
    due: bool,
    g: Glyphs,
)
    ensures
        ({
            let line = shown(label, Ok(UpdateResult::DryRun { current, latest, due }), g);
            &&& due <==> line[3].0 == " would update: "@
            &&& !due <==> line[3].0 == " up to date ("@
            &&& current is None && !due ==> line[4].0 == latest@
        }),
{
    reveal_strlit(" would update: ");
    reveal_strlit(" up to date (");
    assert(" would update: "@.len() != " up to date ("@.len());
}

} // verus!
