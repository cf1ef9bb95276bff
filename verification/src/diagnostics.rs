//! Findings: what a lint reports, as data that an emitter prints.

use crate::hir::Span;
use crate::lexer;
use crate::lint::Lint;
use crate::text;
use vstd::prelude::*;
use vstd::utf8::*;

verus! {

/// How safe it is to apply a suggestion unseen.
#[derive(Clone, Copy, Debug, PartialEq, Eq, Structural)]
pub enum Applicability {
    MachineApplicable,
    MaybeIncorrect,
    HasPlaceholders,
    Unspecified,
}

/// Something said below a finding's message.
#[derive(Debug)]
pub enum Remark {
    Help(String),
    Note(String),
    /// Text at another place in the source.
    Label(Span, String),
    /// A replacement for one place, under a label.
    Suggestion { label: String, span: Span, code: String, applicability: Applicability },
    /// Replacements for several places, applied together.
    Multipart { label: String, parts: Vec<(Span, String)>, applicability: Applicability },
}

/// A finding.
#[derive(Debug)]
pub struct Diagnostic {
    pub lint: Lint,
    pub span: Span,
    pub message: String,
    pub remarks: Vec<Remark>,
}

/// What a remark says.
pub ghost enum RemarkView {
    Help(Seq<char>),
    Note(Seq<char>),
    Label(Span, Seq<char>),
    Suggestion { label: Seq<char>, span: Span, code: Seq<char>, applicability: Applicability },
    Multipart {
        label: Seq<char>,
        parts: Seq<(Span, Seq<char>)>,
        applicability: Applicability,
    },
}

/// What a finding says.
#[verifier::ext_equal]
pub ghost struct DiagnosticView {
    pub lint: Lint,
    pub span: Span,
    pub message: Seq<char>,
    pub remarks: Seq<RemarkView>,
}

/// The texts of the parts of a suggestion.
pub open spec fn part_views(parts: Seq<(Span, String)>) -> Seq<(Span, Seq<char>)> {
    parts.map_values(|part: (Span, String)| (part.0, part.1@))
}

/// The text of an optional part.
pub open spec fn part_opt(part: Option<(Span, String)>) -> Option<(Span, Seq<char>)> {
    match part {
        Some((span, code)) => Some((span, code@)),
        None => None,
    }
}

impl View for Remark {
    type V = RemarkView;

    open spec fn view(&self) -> RemarkView {
        match *self {
            Remark::Help(text) => RemarkView::Help(text@),
            Remark::Note(text) => RemarkView::Note(text@),
            Remark::Label(span, text) => RemarkView::Label(span, text@),
            Remark::Suggestion { label, span, code, applicability } => RemarkView::Suggestion {
                label: label@,
                span,
                code: code@,
                applicability,
            },
            Remark::Multipart { label, parts, applicability } => RemarkView::Multipart {
                label: label@,
                parts: part_views(parts@),
                applicability,
            },
        }
    }
}

pub open spec fn remark_views(remarks: Seq<Remark>) -> Seq<RemarkView> {
    remarks.map_values(|remark: Remark| remark@)
}

impl View for Diagnostic {
    type V = DiagnosticView;

    open spec fn view(&self) -> DiagnosticView {
        DiagnosticView {
            lint: self.lint,
            span: self.span,
            message: self.message@,
            remarks: remark_views(self.remarks@),
        }
    }
}

/// What an optional finding says.
pub open spec fn found(finding: Option<Diagnostic>) -> Option<DiagnosticView> {
    match finding {
        Some(finding) => Some(finding@),
        None => None,
    }
}

/// What a list of findings says.
pub open spec fn found_all(findings: Seq<Diagnostic>) -> Seq<DiagnosticView> {
    findings.map_values(|finding: Diagnostic| finding@)
}

impl DiagnosticView {
    /// A finding with a message and nothing more.
    pub open spec fn bare(lint: Lint, span: Span, message: Seq<char>) -> DiagnosticView {
        DiagnosticView { lint, span, message, remarks: Seq::empty() }
    }

    /// A finding with one replacement for its own place.
    pub open spec fn with_sugg(
        lint: Lint,
        span: Span,
        message: Seq<char>,
        label: Seq<char>,
        code: Seq<char>,
        applicability: Applicability,
    ) -> DiagnosticView {
        DiagnosticView::bare(lint, span, message).with(
            RemarkView::Suggestion { label, span, code, applicability },
        )
    }

    /// A finding with one help line.
    pub open spec fn with_help(
        lint: Lint,
        span: Span,
        message: Seq<char>,
        help: Seq<char>,
    ) -> DiagnosticView {
        DiagnosticView::bare(lint, span, message).with(RemarkView::Help(help))
    }

    /// The finding with a remark added.
    pub open spec fn with(self, remark: RemarkView) -> DiagnosticView {
        DiagnosticView { remarks: self.remarks.push(remark), ..self }
    }
}

impl Diagnostic {
    /// A finding with a message and nothing more.
    pub fn bare(lint: Lint, span: Span, message: &str) -> (r: Diagnostic)
        ensures
            r@ == DiagnosticView::bare(lint, span, message@),
    {
        let r: Diagnostic = Diagnostic {
            lint,
            span,
            message: message.to_owned(),
            remarks: Vec::new(),
        };
        proof {
            assert(r@.remarks =~= Seq::empty());
        }
        r
    }

    /// A finding with one replacement for its own place.
    pub fn with_sugg(
        lint: Lint,
        span: Span,
        message: &str,
        label: &str,
        code: String,
        applicability: Applicability,
    ) -> (r: Diagnostic)
        ensures
            r@ == DiagnosticView::with_sugg(
                lint,
                span,
                message@,
                label@,
                code@,
                applicability,
            ),
    {
        let mut r: Diagnostic = Diagnostic::bare(lint, span, message);
        r.span_suggestion(span, label, code, applicability);
        r
    }

    /// A finding with one help line.
    pub fn with_help(lint: Lint, span: Span, message: &str, help: String) -> (r: Diagnostic)
        ensures
            r@ == DiagnosticView::with_help(lint, span, message@, help@),
    {
        let mut r: Diagnostic = Diagnostic::bare(lint, span, message);
        r.help(help);
        r
    }

    fn push(&mut self, remark: Remark)
        ensures
            final(self)@ == old(self)@.with(remark@),
    {
        let ghost before = self.remarks@;
        self.remarks.push(remark);
        proof {
            assert(remark_views(self.remarks@) =~= remark_views(before).push(remark@));
        }
    }

    /// Adds a help line.
    pub fn help(&mut self, text: String)
        ensures
            final(self)@ == old(self)@.with(RemarkView::Help(text@)),
    {
        self.push(Remark::Help(text));
    }

    /// Adds a note.
    pub fn note(&mut self, text: String)
        ensures
            final(self)@ == old(self)@.with(RemarkView::Note(text@)),
    {
        self.push(Remark::Note(text));
    }

    /// Adds a label at another place.
    pub fn span_label(&mut self, span: Span, text: String)
        ensures
            final(self)@ == old(self)@.with(RemarkView::Label(span, text@)),
    {
        self.push(Remark::Label(span, text));
    }

    /// Adds a replacement for one place.
    pub fn span_suggestion(
        &mut self,
        span: Span,
        label: &str,
        code: String,
        applicability: Applicability,
    )
        ensures
            final(self)@ == old(self)@.with(
                RemarkView::Suggestion { label: label@, span, code: code@, applicability },
            ),
    {
        self.push(Remark::Suggestion { label: label.to_owned(), span, code, applicability });
    }

    /// Adds replacements for several places.
    pub fn multipart_suggestion(
        &mut self,
        label: &str,
        parts: Vec<(Span, String)>,
        applicability: Applicability,
    )
        ensures
            final(self)@ == old(self)@.with(
                RemarkView::Multipart {
                    label: label@,
                    parts: part_views(parts@),
                    applicability,
                },
            ),
    {
        self.push(Remark::Multipart { label: label.to_owned(), parts, applicability });
    }
}

/// A file lies under a directory, both given by the components of their paths.
pub open spec fn lies_under(file: Seq<Seq<char>>, dir: Seq<Seq<char>>) -> bool {
    dir.len() <= file.len() && file.take(dir.len() as int) == dir
}

/// Whether a finding's file lies in the build-script output of the linted crate,
/// each given by the components of its path. Nobody can edit a line there or place
/// an `#[allow]` on it, so such a finding is dropped. Without a build script, or
/// for source that is no file, there is nothing to drop.
pub fn in_build_script_output(out_dir: &Option<Vec<String>>, file: &Option<Vec<String>>) -> (r:
    bool)
    ensures
        r == match (*out_dir, *file) {
            (Some(dir), Some(file)) => lies_under(text::texts(file@), text::texts(dir@)),
            _ => false,
        },
{
    match (out_dir, file) {
        (Some(dir), Some(file)) => is_under(file, dir),
        _ => false,
    }
}

fn is_under(file: &Vec<String>, dir: &Vec<String>) -> (r: bool)
    ensures
        r == lies_under(text::texts(file@), text::texts(dir@)),
{
    if dir.len() > file.len() {
        return false;
    }
    let mut i: usize = 0;
    while i < dir.len()
        invariant
            i <= dir.len(),
            dir.len() <= file.len(),
            forall|k: int| 0 <= k < i ==> file@[k]@ == #[trigger] dir@[k]@,
        decreases dir.len() - i,
    {
        if !text::str_eq(file[i].as_str(), dir[i].as_str()) {
            proof {
                assert(text::texts(file@).take(dir.len() as int)[i as int] != text::texts(
                    dir@,
                )[i as int]);
            }
            return false;
        }
        i = i + 1;
    }
    proof {
        assert(text::texts(file@).take(dir.len() as int) =~= text::texts(dir@));
    }
    true
}

/// Adds a part to a suggestion's parts.
pub fn push_part(parts: &mut Vec<(Span, String)>, span: Span, code: String)
    ensures
        part_views(final(parts)@) == part_views(old(parts)@).push((span, code@)),
{
    let ghost before = parts@;
    parts.push((span, code));
    proof {
        assert(part_views(parts@) =~= part_views(before).push((span, code@)));
    }
}

/// The finding as a list.
pub open spec fn found_seq(finding: Option<DiagnosticView>) -> Seq<DiagnosticView> {
    match finding {
        Some(finding) => seq![finding],
        None => seq![],
    }
}

/// Adds a finding to a list, where there is one.
pub fn push_found(out: &mut Vec<Diagnostic>, finding: Option<Diagnostic>)
    ensures
        found_all(final(out)@) == found_all(old(out)@) + found_seq(found(finding)),
{
    let ghost before = out@;
    match finding {
        Some(finding) => {
            out.push(finding);
            proof {
                assert(found_all(out@) =~= found_all(before) + seq![finding@]);
            }
        },
        None => {
            proof {
                assert(found_all(out@) =~= found_all(before) + seq![]);
            }
        },
    }
}

impl Applicability {
    /// Where a comment stands in the replaced source, a fix that could be
    /// applied unseen no longer is.
    pub open spec fn guarded(self, replaced: Option<Seq<char>>) -> Applicability {
        match (self, replaced) {
            (Applicability::MachineApplicable, Some(source)) => if lexer::has_comment(source) {
                Applicability::MaybeIncorrect
            } else {
                self
            },
            _ => self,
        }
    }

    /// What is left once a piece of source goes into the suggestion:
    /// `placeholder` when it could not be read, `expanded` when it comes out of
    /// a macro.
    pub open spec fn weakened(self, placeholder: bool, expanded: bool) -> Applicability {
        let moved = if self !is Unspecified && expanded {
            Applicability::MaybeIncorrect
        } else {
            self
        };
        if placeholder && moved is MachineApplicable {
            Applicability::HasPlaceholders
        } else {
            moved
        }
    }
}

/// A fix that would delete a comment is never applied unseen, one that deletes
/// none is left as it was.
pub proof fn comments_are_never_deleted_unseen(a: Applicability, source: Seq<char>)
    ensures
        lexer::has_comment(source) ==> a.guarded(Some(source)) !is MachineApplicable,
        !lexer::has_comment(source) ==> a.guarded(Some(source)) == a,
{
}

/// Neither what a suggestion is built from nor what it replaces makes a fix
/// applicable that was not.
pub proof fn applicability_is_never_raised(
    a: Applicability,
    placeholder: bool,
    expanded: bool,
    replaced: Option<Seq<char>>,
)
    ensures
        a.weakened(placeholder, expanded) is MachineApplicable ==> a is MachineApplicable
            && !placeholder && !expanded,
        a.guarded(replaced) is MachineApplicable ==> a is MachineApplicable,
{
}

impl Applicability {
    /// What is left of the applicability once a piece of source goes into the
    /// suggestion: `placeholder` when the source could not be read, `expanded`
    /// when it comes out of a macro.
    pub fn weaken(self, placeholder: bool, expanded: bool) -> (r: Applicability)
        ensures
            r == self.weakened(placeholder, expanded),
    {
        let mut left: Applicability = self;
        if left != Applicability::Unspecified && expanded {
            left = Applicability::MaybeIncorrect;
        }
        if placeholder && left == Applicability::MachineApplicable {
            left = Applicability::HasPlaceholders;
        }
        left
    }
}

/// A comment inside the source a suggestion replaces would be deleted by the
/// fix: downgrade to `MaybeIncorrect`.
pub fn comment_guard(replaced: &Option<String>, applicability: Applicability) -> (r: Applicability)
    requires
        replaced matches Some(source) ==> encode_utf8(source@).len() <= u32::MAX,
    ensures
        r == applicability.guarded(crate::text::text_opt(*replaced)),
{
    match (applicability, replaced) {
        (Applicability::MachineApplicable, Some(source)) => {
            if lexer::contains_comment(source.as_str()) {
                Applicability::MaybeIncorrect
            } else {
                applicability
            }
        },
        _ => applicability,
    }
}

} // verus!
