//! Documentation text extractor.
//!
//! An ordered sequence of raw annotation entries — literal text lines,
//! macro-style file-inclusion expressions, or other value forms that carry no
//! documentation — is reduced to [`DocPiece`]s, inclusion expressions are
//! resolved to file paths, and the resolved lines are normalized: each literal
//! line loses its trailing whitespace, the common leading-space indentation of
//! all non-empty lines is stripped once, and the lines join with `'\n'`.
//!
//! Reading a resolved file, and reading the project-root environment
//! variable, are the caller's work: this module only computes which path to
//! read and what the lines become.

use vstd::prelude::*;
use vstd::string::*;

use crate::strutil::{
    contains_seq, contains_str, count_leading_spaces, leading_spaces,
    lemma_leading_spaces_bound, remove_all_spec, remove_occurrences, str_eq, trim_chars,
    trim_cs, trim_end_spec, trim_start_chars, trim_start_cs, trim_trailing, CharSet,
};

verus! {

/// One source annotation entry, as the host-syntax adapter hands it over.
pub enum RawAnnotation {
    /// A documentation annotation carrying a literal text line.
    Literal(String),
    /// A documentation annotation whose value is a macro call: the call's
    /// path and its argument tokens, both as text.
    MacroCall { path: String, tokens: String },
    /// Any other annotation value form; such entries carry no text and are
    /// silently dropped.
    Unsupported,
}

/// The ghost image of a [`RawAnnotation`].
pub enum AnnotationModel {
    Literal(Seq<char>),
    MacroCall { path: Seq<char>, tokens: Seq<char> },
    Unsupported,
}

impl View for RawAnnotation {
    type V = AnnotationModel;

    open spec fn view(&self) -> AnnotationModel {
        match self {
            RawAnnotation::Literal(t) => AnnotationModel::Literal(t@),
            RawAnnotation::MacroCall { path, tokens } => AnnotationModel::MacroCall {
                path: path@,
                tokens: tokens@,
            },
            RawAnnotation::Unsupported => AnnotationModel::Unsupported,
        }
    }
}

impl DeepView for RawAnnotation {
    type V = AnnotationModel;

    open spec fn deep_view(&self) -> AnnotationModel {
        self.view()
    }
}

/// A documentation-bearing entry after the first pass: either resolved text,
/// or a still-unresolved inclusion expression.
#[derive(Debug, PartialEq, Eq)]
pub enum DocPiece {
    /// A literal line, trailing whitespace already removed.
    Text(String),
    /// The argument tokens of an `include_str` call, not yet resolved.
    Include(String),
}

/// The ghost image of a [`DocPiece`].
pub enum DocPieceModel {
    Text(Seq<char>),
    Include(Seq<char>),
}

impl View for DocPiece {
    type V = DocPieceModel;

    open spec fn view(&self) -> DocPieceModel {
        match self {
            DocPiece::Text(t) => DocPieceModel::Text(t@),
            DocPiece::Include(t) => DocPieceModel::Include(t@),
        }
    }
}

impl DeepView for DocPiece {
    type V = DocPieceModel;

    open spec fn deep_view(&self) -> DocPieceModel {
        self.view()
    }
}

/// What one annotation entry contributes: trimmed text for a literal, an
/// inclusion for an `include_str` call, nothing for anything else.
pub open spec fn doc_value_spec(a: AnnotationModel) -> Option<DocPieceModel> {
    match a {
        AnnotationModel::Literal(t) => Some(DocPieceModel::Text(trim_end_spec(t))),
        AnnotationModel::MacroCall { path, tokens } => if path == "include_str"@ {
            Some(DocPieceModel::Include(tokens))
        } else {
            None
        },
        AnnotationModel::Unsupported => None,
    }
}

pub open spec fn opt_piece_models(r: Option<DocPiece>, m: Option<DocPieceModel>) -> bool {
    match r {
        Some(p) => m == Some(p@),
        None => m is None,
    }
}

/// Extracts the documentation value of one annotation entry.
///
/// A literal line is kept with its trailing whitespace removed; an
/// `include_str` macro call is kept as an unresolved inclusion; every other
/// value form yields nothing.
pub fn extract_doc_value(a: &RawAnnotation) -> (r: Option<DocPiece>)
    ensures
        opt_piece_models(r, doc_value_spec(a@)),
{
    match a {
        RawAnnotation::Literal(t) => Some(DocPiece::Text(trim_trailing(t.as_str()))),
        RawAnnotation::MacroCall { path, tokens } => {
            if str_eq(path.as_str(), "include_str") {
                Some(DocPiece::Include(tokens.clone()))
            } else {
                None
            }
        },
        RawAnnotation::Unsupported => None,
    }
}

/// The documentation pieces of a whole annotation sequence, in order.
pub open spec fn doc_pieces_spec(entries: Seq<AnnotationModel>) -> Seq<DocPieceModel>
    decreases entries.len(),
{
    if entries.len() == 0 {
        Seq::empty()
    } else {
        doc_pieces_spec(entries.drop_last()) + match doc_value_spec(entries.last()) {
            Some(p) => seq![p],
            None => Seq::empty(),
        }
    }
}

/// Collects the documentation pieces of an annotation sequence, dropping
/// entries that carry none.
pub fn doc_pieces(entries: &Vec<RawAnnotation>) -> (r: Vec<DocPiece>)
    ensures
        r.deep_view() == doc_pieces_spec(entries.deep_view()),
{
    let mut out: Vec<DocPiece> = Vec::new();
    let n = entries.len();
    let mut i: usize = 0;
    proof {
        assert(entries.deep_view().take(0) =~= Seq::<AnnotationModel>::empty());
        assert(out.deep_view() =~= doc_pieces_spec(entries.deep_view().take(0)));
    }
    while i < n
        invariant
            0 <= i <= n == entries.len(),
            out.deep_view() == doc_pieces_spec(entries.deep_view().take(i as int)),
        decreases n - i,
    {
        let ghost pre = entries.deep_view().take(i as int);
        let ghost post = entries.deep_view().take(i as int + 1);
        proof {
            assert(post.drop_last() =~= pre);
            assert(post.last() == entries.deep_view()[i as int]);
        }
        match extract_doc_value(&entries[i]) {
            Some(p) => {
                out.push(p);
                proof {
                    assert(out.deep_view() =~= doc_pieces_spec(post));
                }
            },
            None => {
                proof {
                    assert(out.deep_view() =~= doc_pieces_spec(post));
                }
            },
        }
        i = i + 1;
    }
    proof {
        assert(entries.deep_view().take(n as int) =~= entries.deep_view());
    }
    out
}

/// The least leading-space count over the non-empty lines, or `None` when
/// every line is empty.
pub open spec fn min_indent_opt(lines: Seq<Seq<char>>) -> Option<nat>
    decreases lines.len(),
{
    if lines.len() == 0 {
        None
    } else {
        let rest = min_indent_opt(lines.drop_last());
        let l = lines.last();
        if l.len() == 0 {
            rest
        } else {
            let h = leading_spaces(l);
            match rest {
                None => Some(h),
                Some(m) => if h < m {
                    Some(h)
                } else {
                    Some(m)
                },
            }
        }
    }
}

/// The common indentation width that extraction strips: the least
/// leading-space count of a non-empty line, and `0` when there is none.
pub open spec fn min_indent(lines: Seq<Seq<char>>) -> nat {
    match min_indent_opt(lines) {
        None => 0,
        Some(m) => m,
    }
}

/// The minimum is a lower bound on every non-empty line's indentation, is
/// attained by one of them, and exists exactly when a non-empty line does.
pub proof fn lemma_min_indent_bounds(lines: Seq<Seq<char>>)
    ensures
        (min_indent_opt(lines) is None) <==> (forall|i: int|
            0 <= i < lines.len() ==> #[trigger] lines[i].len() == 0),
        min_indent_opt(lines) matches Some(m) ==> {
            &&& forall|i: int|
                0 <= i < lines.len() && #[trigger] lines[i].len() > 0 ==> m <= leading_spaces(
                    lines[i],
                )
            &&& exists|i: int|
                0 <= i < lines.len() && #[trigger] lines[i].len() > 0 && leading_spaces(lines[i])
                    == m
        },
    decreases lines.len(),
{
    if lines.len() > 0 {
        let prefix = lines.drop_last();
        lemma_min_indent_bounds(prefix);
        assert forall|i: int| 0 <= i < prefix.len() implies prefix[i] == lines[i] by {}
        let l = lines.last();
        let li = lines.len() - 1;
        if min_indent_opt(lines) is Some {
            let m = min_indent_opt(lines)->Some_0;
            assert forall|i: int|
                0 <= i < lines.len() && #[trigger] lines[i].len() > 0 implies m <= leading_spaces(
                lines[i],
            ) by {
                if i < li {
                    assert(prefix[i].len() > 0);
                    assert(min_indent_opt(prefix) is Some);
                    assert(min_indent_opt(prefix)->Some_0 <= leading_spaces(prefix[i]));
                }
            }
            if l.len() == 0 {
                let pm = min_indent_opt(prefix)->Some_0;
                let wi = choose|i: int|
                    0 <= i < prefix.len() && #[trigger] prefix[i].len() > 0 && leading_spaces(
                        prefix[i],
                    ) == pm;
                assert(lines[wi].len() > 0 && leading_spaces(lines[wi]) == m);
            } else {
                let h = leading_spaces(l);
                if min_indent_opt(prefix) is Some && min_indent_opt(prefix)->Some_0 < h {
                    let pm = min_indent_opt(prefix)->Some_0;
                    let wi = choose|i: int|
                        0 <= i < prefix.len() && #[trigger] prefix[i].len() > 0 && leading_spaces(
                            prefix[i],
                        ) == pm;
                    assert(lines[wi].len() > 0 && leading_spaces(lines[wi]) == m);
                } else {
                    assert(m == h);
                    assert(lines[li].len() > 0 && leading_spaces(lines[li]) == m);
                }
            }
        }
    }
}

/// Every line after the indentation pass: empty lines untouched, the first
/// [`min_indent`] characters of every other line removed.
pub open spec fn strip_indent(lines: Seq<Seq<char>>) -> Seq<Seq<char>> {
    lines.map(
        |i: int, l: Seq<char>|
            if l.len() == 0 {
                l
            } else {
                l.skip(min_indent(lines) as int)
            },
    )
}

pub open spec fn opt_nat_models(r: Option<usize>, m: Option<nat>) -> bool {
    match r {
        Some(b) => m == Some(b as nat),
        None => m is None,
    }
}

/// Computes [`min_indent`] of a line sequence.
fn min_indent_exec(docs: &Vec<String>) -> (m: usize)
    ensures
        m == min_indent(docs.deep_view()),
{
    let n = docs.len();
    let mut best: Option<usize> = None;
    let mut i: usize = 0;
    proof {
        assert(docs.deep_view().take(0) =~= Seq::<Seq<char>>::empty());
    }
    while i < n
        invariant
            0 <= i <= n == docs.len(),
            opt_nat_models(best, min_indent_opt(docs.deep_view().take(i as int))),
        decreases n - i,
    {
        let ghost pre = docs.deep_view().take(i as int);
        let ghost post = docs.deep_view().take(i as int + 1);
        proof {
            assert(post.drop_last() =~= pre);
            assert(post.last() == docs.deep_view()[i as int]);
        }
        let line = &docs[i];
        if line.as_str().unicode_len() > 0 {
            let h = count_leading_spaces(line.as_str());
            best = match best {
                None => Some(h),
                Some(b) => if h < b {
                    Some(h)
                } else {
                    Some(b)
                },
            };
        }
        i = i + 1;
    }
    proof {
        assert(docs.deep_view().take(n as int) =~= docs.deep_view());
    }
    match best {
        Some(b) => b,
        None => 0,
    }
}

/// The resolved and indentation-stripped documentation lines of one
/// declaration, in their original order.
pub struct CommentAttributes(pub Vec<String>);

impl View for CommentAttributes {
    type V = Seq<Seq<char>>;

    open spec fn view(&self) -> Seq<Seq<char>> {
        self.0.deep_view()
    }
}

impl CommentAttributes {
    /// Builds the attribute list from resolved documentation lines: the
    /// common leading-space indentation of the non-empty lines is removed
    /// from every non-empty line, and empty lines stay as they are.
    pub fn from_docs(docs: Vec<String>) -> (r: CommentAttributes)
        ensures
            r@ == strip_indent(docs.deep_view()),
    {
        let ghost dv = docs.deep_view();
        let m = min_indent_exec(&docs);
        let mut out: Vec<String> = Vec::new();
        let n = docs.len();
        let mut i: usize = 0;
        while i < n
            invariant
                0 <= i <= n == docs.len(),
                dv == docs.deep_view(),
                m == min_indent(dv),
                out.deep_view().len() == i,
                forall|j: int|
                    0 <= j < i ==> #[trigger] out.deep_view()[j] == if dv[j].len() == 0 {
                        dv[j]
                    } else {
                        dv[j].skip(m as int)
                    },
            decreases n - i,
        {
            let ghost prev = out.deep_view();
            let line = &docs[i];
            proof {
                assert(line@ == dv[i as int]);
            }
            let ln = line.as_str().unicode_len();
            if ln == 0 {
                out.push(line.clone());
                proof {
                    assert(out.deep_view() =~= prev.push(dv[i as int]));
                }
            } else {
                proof {
                    lemma_min_indent_bounds(dv);
                    assert(dv[i as int].len() > 0);
                    assert(min_indent_opt(dv) matches Some(mm) && mm <= leading_spaces(
                        dv[i as int],
                    ));
                    lemma_leading_spaces_bound(dv[i as int]);
                    assert(m <= ln);
                    assert(line@.subrange(m as int, ln as int) =~= dv[i as int].skip(m as int));
                }
                out.push(String::from_str(line.as_str().substring_char(m, ln)));
                proof {
                    assert(out.deep_view() =~= prev.push(dv[i as int].skip(m as int)));
                }
            }
            i = i + 1;
        }
        proof {
            assert(out.deep_view() =~~= strip_indent(dv));
        }
        CommentAttributes(out)
    }

    /// Whether no documentation line was found.
    pub fn is_empty(&self) -> (r: bool)
        ensures
            r == (self@.len() == 0),
    {
        self.0.len() == 0
    }

    /// The lines joined with a single `'\n'`; empty lines stay as empty
    /// segments.
    pub fn as_formatted_string(&self) -> (r: String)
        ensures
            r@ == join_lines(self@),
    {
        let mut acc = String::new();
        let n = self.0.len();
        let mut i: usize = 0;
        proof {
            assert(self@.take(0) =~= Seq::<Seq<char>>::empty());
        }
        while i < n
            invariant
                0 <= i <= n == self.0.len(),
                acc@ == join_lines(self@.take(i as int)),
            decreases n - i,
        {
            let ghost pre = self@.take(i as int);
            let ghost post = self@.take(i as int + 1);
            proof {
                reveal_strlit("\n");
                assert(post.drop_last() =~= pre);
                assert(post.last() == self@[i as int]);
                assert("\n"@ =~= seq!['\n']);
            }
            if i > 0 {
                acc.append("\n");
            }
            acc.append(self.0[i].as_str());
            proof {
                assert(self.0@[i as int]@ == self@[i as int]);
                if i == 0 {
                    assert(acc@ =~= post[0]);
                } else {
                    assert(acc@ =~= join_lines(pre) + seq!['\n'] + post.last());
                }
            }
            i = i + 1;
        }
        proof {
            assert(self@.take(n as int) =~= self@);
        }
        acc
    }
}

/// The lines joined with a single `'\n'` between each pair.
pub open spec fn join_lines(lines: Seq<Seq<char>>) -> Seq<char>
    decreases lines.len(),
{
    if lines.len() == 0 {
        Seq::empty()
    } else if lines.len() == 1 {
        lines[0]
    } else {
        join_lines(lines.drop_last()) + seq!['\n'] + lines.last()
    }
}

/// Why an inclusion expression could not be resolved to a path.
#[derive(Clone, Copy, PartialEq, Eq, Structural, Debug)]
pub enum PathError {
    /// The expression references the project root, but no project-root
    /// directory is known (the environment variable is unset).
    MissingProjectRoot,
}

/// The project-root directory joined with a relative path fragment: a single
/// separator is put between them, and an existing trailing separator of the
/// root is not doubled. Every leading separator of the fragment is removed,
/// not only the first — more than stripping the one expected separator asks,
/// but a doubled separator names the same file, and resolution then matches
/// a filesystem join of the root with the fragment.
pub open spec fn join_project_root(root: Seq<char>, rel: Seq<char>) -> Seq<char> {
    let r = trim_start_cs(rel, CharSet::Slash);
    if root.len() > 0 && root.last() == '/' {
        root + r
    } else if root.len() == 0 {
        r
    } else {
        root + seq!['/'] + r
    }
}

/// The relative path fragment of a project-root inclusion expression `t`
/// (already trimmed of whitespace and quotes): the wrapper macro syntax, the
/// project-root reference and the argument commas are removed, and what
/// remains is trimmed of whitespace, parentheses and quotes.
pub open spec fn include_fragment(t: Seq<char>) -> Seq<char> {
    let r1 = remove_all_spec(t, "concat!"@);
    let r2 = remove_all_spec(r1, "env!(\"CARGO_MANIFEST_DIR\")"@);
    let r3 = remove_all_spec(r2, "env!('CARGO_MANIFEST_DIR')"@);
    let r4 = remove_all_spec(r3, ","@);
    trim_cs(trim_cs(trim_cs(trim_cs(r4, CharSet::Whitespace), CharSet::Paren), CharSet::Whitespace), CharSet::DoubleQuote)
}

/// The path an inclusion expression names: after trimming whitespace and
/// quotes, an expression that references the project-root variable resolves
/// against `root` (an error when `root` is unknown), anything else is the
/// path itself.
pub open spec fn resolve_include_spec(expr: Seq<char>, root: Option<Seq<char>>) -> Result<
    Seq<char>,
    PathError,
> {
    let t = trim_cs(trim_cs(expr, CharSet::Whitespace), CharSet::DoubleQuote);
    if contains_seq(t, "CARGO_MANIFEST_DIR"@) {
        match root {
            None => Err(PathError::MissingProjectRoot),
            Some(r) => Ok(join_project_root(r, include_fragment(t))),
        }
    } else {
        Ok(t)
    }
}

pub open spec fn root_view(root: Option<&str>) -> Option<Seq<char>> {
    match root {
        Some(r) => Some(r@),
        None => None,
    }
}

/// Joins the project-root directory with a relative fragment, as
/// [`join_project_root`] says.
pub fn project_root_join(root: &str, rel: &str) -> (r: String)
    ensures
        r@ == join_project_root(root@, rel@),
{
    let frag = trim_start_chars(rel, &CharSet::Slash);
    let n = root.unicode_len();
    if n > 0 && root.get_char(n - 1) == '/' {
        proof {
            assert(root@.last() == '/');
        }
        String::from_str(root).concat(frag.as_str())
    } else if n == 0 {
        frag
    } else {
        proof {
            reveal_strlit("/");
            assert("/"@ =~= seq!['/']);
        }
        String::from_str(root).concat("/").concat(frag.as_str())
    }
}

/// Resolves an inclusion expression to the file path to read, against the
/// project-root directory when the expression references it.
pub fn resolve_include_path(expr: &str, project_root: Option<&str>) -> (r: Result<
    String,
    PathError,
>)
    ensures
        match r {
            Ok(p) => resolve_include_spec(expr@, root_view(project_root)) == Ok::<
                Seq<char>,
                PathError,
            >(p@),
            Err(e) => resolve_include_spec(expr@, root_view(project_root)) == Err::<
                Seq<char>,
                PathError,
            >(e),
        },
{
    let t0 = trim_chars(expr, &CharSet::Whitespace);
    let t = trim_chars(t0.as_str(), &CharSet::DoubleQuote);
    if contains_str(t.as_str(), "CARGO_MANIFEST_DIR") {
        match project_root {
            None => Err(PathError::MissingProjectRoot),
            Some(root) => {
                let r1 = remove_occurrences(t.as_str(), "concat!");
                let r2 = remove_occurrences(r1.as_str(), "env!(\"CARGO_MANIFEST_DIR\")");
                let r3 = remove_occurrences(r2.as_str(), "env!('CARGO_MANIFEST_DIR')");
                let r4 = remove_occurrences(r3.as_str(), ",");
                let f1 = trim_chars(r4.as_str(), &CharSet::Whitespace);
                let f2 = trim_chars(f1.as_str(), &CharSet::Paren);
                let f3 = trim_chars(f2.as_str(), &CharSet::Whitespace);
                let frag = trim_chars(f3.as_str(), &CharSet::DoubleQuote);
                Ok(project_root_join(root, frag.as_str()))
            },
        }
    } else {
        Ok(t)
    }
}

/// Every non-empty sequence of lines that share a leading-space prefix of
/// width `w`, with `w` attained by one of them, loses exactly its first `w`
/// characters — all spaces — from every non-empty line, and nothing from the
/// empty ones.
pub proof fn lemma_common_indent_stripped(lines: Seq<Seq<char>>, w: nat)
    requires
        forall|i: int|
            0 <= i < lines.len() && #[trigger] lines[i].len() > 0 ==> leading_spaces(lines[i])
                >= w,
        exists|i: int|
            0 <= i < lines.len() && #[trigger] lines[i].len() > 0 && leading_spaces(lines[i])
                == w,
    ensures
        min_indent(lines) == w,
        forall|i: int|
            0 <= i < lines.len() ==> #[trigger] strip_indent(lines)[i] == if lines[i].len() == 0 {
                lines[i]
            } else {
                lines[i].skip(w as int)
            },
        forall|i: int, j: int|
            0 <= i < lines.len() && lines[i].len() > 0 && 0 <= j < w ==> #[trigger] lines[i][j]
                == ' ',
        forall|i: int|
            0 <= i < lines.len() && #[trigger] lines[i].len() > 0 ==> lines[i] == lines[i].take(
                w as int,
            ) + strip_indent(lines)[i],
{
    lemma_min_indent_bounds(lines);
    let wit = choose|i: int|
        0 <= i < lines.len() && #[trigger] lines[i].len() > 0 && leading_spaces(lines[i]) == w;
    assert(lines[wit].len() > 0);
    assert(min_indent_opt(lines) is Some);
    let m = min_indent_opt(lines)->Some_0;
    assert(m <= leading_spaces(lines[wit]));
    let at = choose|i: int|
        0 <= i < lines.len() && #[trigger] lines[i].len() > 0 && leading_spaces(lines[i]) == m;
    assert(leading_spaces(lines[at]) >= w);
    assert(m == w);
    assert forall|i: int, j: int|
        0 <= i < lines.len() && lines[i].len() > 0 && 0 <= j < w implies #[trigger] lines[i][j]
        == ' ' by {
        lemma_leading_spaces_bound(lines[i]);
    }
    assert forall|i: int|
        0 <= i < lines.len() && #[trigger] lines[i].len() > 0 implies lines[i] == lines[i].take(
        w as int,
    ) + strip_indent(lines)[i] by {
        lemma_leading_spaces_bound(lines[i]);
        assert(lines[i] =~= lines[i].take(w as int) + lines[i].skip(w as int));
    }
}

/// Lines with no common indentation come out of the indentation pass
/// unchanged.
pub proof fn lemma_no_indent_unchanged(lines: Seq<Seq<char>>)
    requires
        min_indent(lines) == 0,
    ensures
        strip_indent(lines) == lines,
{
    assert forall|i: int| 0 <= i < lines.len() implies #[trigger] strip_indent(lines)[i]
        == lines[i] by {
        if lines[i].len() > 0 {
            assert(lines[i].skip(0) =~= lines[i]);
        }
    }
    assert(strip_indent(lines) =~= lines);
}

} // verus!
