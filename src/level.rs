//! The level spec itself: a show, a sequence of a show, or a shot of a
//! sequence of a show.
use vstd::prelude::*;

use crate::error::{ErrorView, LevelSpecError};
use crate::split::{dot_free, join_dots, split_dots, split_on_dots, views, lemma_split_join};
use crate::token::{chartest, has_bad_char, is_token_char, valid_token};

verus! {

/// A level in the show / sequence / shot hierarchy. A sequence always comes
/// with its show, and a shot with its show and sequence.
///
/// Values are ordered by depth first (show, then sequence, then shot), then
/// segment by segment.
#[derive(Debug, Clone, PartialEq, Eq, PartialOrd, Ord)]
pub enum LevelSpec {
    Show { show: String },
    Sequence { show: String, sequence: String },
    Shot { show: String, sequence: String, shot: String },
}

/// Short name for [`LevelSpec`].
pub type Level = LevelSpec;

/// A level spec is seen as the list of its segments, outermost first: one
/// for a show, two for a sequence, three for a shot.
impl View for LevelSpec {
    type V = Seq<Seq<char>>;

    open spec fn view(&self) -> Seq<Seq<char>> {
        match self {
            LevelSpec::Show { show } => seq![show@],
            LevelSpec::Sequence { show, sequence } => seq![show@, sequence@],
            LevelSpec::Shot { show, sequence, shot } => seq![show@, sequence@, shot@],
        }
    }
}

/// The content of a construction result.
pub open spec fn outcome(r: Result<LevelSpec, LevelSpecError>) -> Result<
    Seq<Seq<char>>,
    ErrorView,
> {
    match r {
        Ok(v) => Ok(v@),
        Err(e) => Err(e@),
    }
}

/// The content of an optional segment.
pub open spec fn opt_view(o: Option<&str>) -> Option<Seq<char>> {
    match o {
        Some(s) => Some(s@),
        None => None,
    }
}

/// Construction from parts: a show alone, a show and a sequence, or all
/// three; any other combination is a structural error. Characters are not
/// checked.
pub open spec fn new_spec(
    show: Option<Seq<char>>,
    sequence: Option<Seq<char>>,
    shot: Option<Seq<char>>,
) -> Result<Seq<Seq<char>>, ErrorView> {
    match (show, sequence, shot) {
        (Some(a), None, None) => Ok(seq![a]),
        (Some(a), Some(b), None) => Ok(seq![a, b]),
        (Some(a), Some(b), Some(c)) => Ok(seq![a, b, c]),
        _ => Err(ErrorView::InvalidInput),
    }
}

/// Index of the first segment, at `j` or after, holding a character that is
/// not allowed.
pub open spec fn first_bad_from(ts: Seq<Seq<char>>, j: int) -> Option<int>
    decreases ts.len() - j,
{
    if 0 <= j < ts.len() {
        if has_bad_char(ts[j]) {
            Some(j)
        } else {
            first_bad_from(ts, j + 1)
        }
    } else {
        None
    }
}

/// Parsing of delimited text: the first segment with a character that is
/// not allowed is reported; otherwise one, two or three non-empty segments
/// give a show, a sequence or a shot, and anything else is a structural
/// error.
pub open spec fn parse_spec(s: Seq<char>) -> Result<Seq<Seq<char>>, ErrorView> {
    let ts = split_dots(s);
    match first_bad_from(ts, 0) {
        Some(j) => Err(ErrorView::InvalidCharacters(ts[j])),
        None => if 1 <= ts.len() <= 3 && forall|k: int| 0 <= k < ts.len() ==> #[trigger] ts[k].len() > 0 {
            Ok(ts)
        } else {
            Err(ErrorView::InvalidInput)
        },
    }
}

/// The canonical text of a level spec: its segments joined with `.`.
pub open spec fn render_spec(ts: Seq<Seq<char>>) -> Seq<char> {
    join_dots(ts)
}

impl LevelSpec {
    /// Every segment is non-empty and made of allowed characters.
    pub open spec fn well_formed(&self) -> bool {
        forall|k: int| 0 <= k < self@.len() ==> valid_token(#[trigger] self@[k])
    }

    /// Builds a level spec from its parts, present from the outermost in:
    /// a show; a show and a sequence; or a show, a sequence and a shot.
    /// Characters are not checked.
    pub fn new(show: Option<&str>, sequence: Option<&str>, shot: Option<&str>) -> (r: Result<
        Self,
        LevelSpecError,
    >)
        ensures
            outcome(r) == new_spec(opt_view(show), opt_view(sequence), opt_view(shot)),
    {
        match (show, sequence, shot) {
            (Some(show), None, None) => Ok(LevelSpec::Show { show: show.to_owned() }),
            (Some(show), Some(seq), None) => Ok(
                LevelSpec::Sequence { show: show.to_owned(), sequence: seq.to_owned() },
            ),
            (Some(show), Some(seq), Some(shot)) => Ok(
                LevelSpec::Shot {
                    show: show.to_owned(),
                    sequence: seq.to_owned(),
                    shot: shot.to_owned(),
                },
            ),
            _ => Err(LevelSpecError::InvalidInputError("new called with invalid args".to_owned())),
        }
    }

    /// A show-level spec.
    pub fn from_show(name: String) -> (r: Self)
        ensures
            r == (LevelSpec::Show { show: name }),
            r@ == seq![name@],
    {
        LevelSpec::Show { show: name }
    }

    /// Parses `SHOW`, `SHOW.SEQ` or `SHOW.SEQ.SHOT`.
    pub fn parse(input: &str) -> (r: Result<Self, LevelSpecError>)
        ensures
            outcome(r) == parse_spec(input@),
            r matches Ok(v) ==> v.well_formed(),
    {
        let tokens = split_on_dots(input);
        let ghost ts = views(tokens@);
        // Characters first, segment by segment from the left.
        let mut j: usize = 0;
        while j < tokens.len()
            invariant
                ts == views(tokens@),
                ts == split_dots(input@),
                j <= tokens.len(),
                first_bad_from(ts, 0) == first_bad_from(ts, j as int),
            decreases tokens.len() - j,
        {
            assert(ts[j as int] == tokens@[j as int]@);
            match chartest(tokens[j].as_str()) {
                Err(e) => {
                    return Err(e);
                },
                Ok(_) => {},
            }
            j = j + 1;
        }
        assert(first_bad_from(ts, 0) is None);
        proof {
            lemma_first_bad_none_all(ts, 0);
        }
        // Then the structure: no empty segment, and one to three of them.
        let n = tokens.len();
        let mut k: usize = 0;
        while k < n
            invariant
                ts == views(tokens@),
                ts == split_dots(input@),
                first_bad_from(ts, 0) is None,
                n == tokens.len(),
                k <= n,
                forall|m: int| 0 <= m < k ==> #[trigger] ts[m].len() > 0,
            decreases n - k,
        {
            assert(ts[k as int] == tokens@[k as int]@);
            if tokens[k].as_str().unicode_len() == 0 {
                return Err(
                    LevelSpecError::InvalidInputError(
                        "parse expects one to three non-empty segments".to_owned(),
                    ),
                );
            }
            k = k + 1;
        }
        assert(n == 3 ==> ts =~= seq![ts[0], ts[1], ts[2]]);
        assert(n == 2 ==> ts =~= seq![ts[0], ts[1]]);
        assert(n == 1 ==> ts =~= seq![ts[0]]);
        if n == 3 {
            LevelSpec::new(
                Some(tokens[0].as_str()),
                Some(tokens[1].as_str()),
                Some(tokens[2].as_str()),
            )
        } else if n == 2 {
            LevelSpec::new(Some(tokens[0].as_str()), Some(tokens[1].as_str()), None)
        } else if n == 1 {
            LevelSpec::new(Some(tokens[0].as_str()), None, None)
        } else {
            Err(
                LevelSpecError::InvalidInputError(
                    "parse expects one to three non-empty segments".to_owned(),
                ),
            )
        }
    }

    /// The show, whatever the depth.
    pub fn show(&self) -> (r: String)
        ensures
            r@ == self@[0],
    {
        match self {
            LevelSpec::Show { show } => show.clone(),
            LevelSpec::Sequence { show, .. } => show.clone(),
            LevelSpec::Shot { show, .. } => show.clone(),
        }
    }

    /// The sequence, for a sequence or a shot.
    pub fn sequence(&self) -> (r: Option<String>)
        ensures
            r is Some <==> self@.len() >= 2,
            r matches Some(q) ==> q@ == self@[1],
    {
        match self {
            LevelSpec::Show { .. } => None,
            LevelSpec::Sequence { sequence, .. } => Some(sequence.clone()),
            LevelSpec::Shot { sequence, .. } => Some(sequence.clone()),
        }
    }

    /// The shot, for a shot.
    pub fn shot(&self) -> (r: Option<String>)
        ensures
            r is Some <==> self@.len() == 3,
            r matches Some(q) ==> q@ == self@[2],
    {
        match self {
            LevelSpec::Shot { shot, .. } => Some(shot.clone()),
            _ => None,
        }
    }

    /// The canonical text: `SHOW`, `SHOW.SEQ` or `SHOW.SEQ.SHOT`.
    pub fn render(&self) -> (r: String)
        ensures
            r@ == render_spec(self@),
    {
        proof {
            reveal_strlit(".");
            reveal_with_fuel(join_dots, 3);
        }
        match self {
            LevelSpec::Show { show } => show.clone(),
            LevelSpec::Sequence { show, sequence } => {
                let mut r = show.clone();
                r.append(".");
                r.append(sequence.as_str());
                assert(seq![show@, sequence@].drop_last() =~= seq![show@]);
                r
            },
            LevelSpec::Shot { show, sequence, shot } => {
                let mut r = show.clone();
                r.append(".");
                r.append(sequence.as_str());
                r.append(".");
                r.append(shot.as_str());
                assert(seq![show@, sequence@, shot@].drop_last() =~= seq![show@, sequence@]);
                assert(seq![show@, sequence@].drop_last() =~= seq![show@]);
                r
            },
        }
    }
}

impl std::str::FromStr for LevelSpec {
    type Err = LevelSpecError;

    /// Parses `SHOW`, `SHOW.SEQ` or `SHOW.SEQ.SHOT`, as [`LevelSpec::parse`].
    fn from_str(input: &str) -> (r: Result<Self, Self::Err>)
        ensures
            outcome(r) == parse_spec(input@),
            r matches Ok(v) ==> v.well_formed(),
    {
        LevelSpec::parse(input)
    }
}

/// No segment past `j` holds a character that is not allowed.
proof fn lemma_first_bad_none(ts: Seq<Seq<char>>, j: int)
    requires
        0 <= j,
        forall|k: int| j <= k < ts.len() ==> !has_bad_char(#[trigger] ts[k]),
    ensures
        first_bad_from(ts, j) is None,
    decreases ts.len() - j,
{
    if j < ts.len() {
        lemma_first_bad_none(ts, j + 1);
    }
}

/// When no segment past `j` is reported, none past `j` holds a character
/// that is not allowed.
proof fn lemma_first_bad_none_all(ts: Seq<Seq<char>>, j: int)
    requires
        0 <= j,
        first_bad_from(ts, j) is None,
    ensures
        forall|k: int| j <= k < ts.len() ==> !has_bad_char(#[trigger] ts[k]),
    decreases ts.len() - j,
{
    if j < ts.len() {
        lemma_first_bad_none_all(ts, j + 1);
    }
}

/// A segment made of allowed characters holds no delimiter.
proof fn lemma_valid_dot_free(t: Seq<char>)
    requires
        !has_bad_char(t),
    ensures
        dot_free(t),
{
    assert forall|i: int| 0 <= i < t.len() implies #[trigger] t[i] != '.' by {
        assert(is_token_char(t[i]));
    }
}

/// Rendering a well-formed level spec and parsing the text gives the same
/// level spec back.
pub proof fn lemma_parse_render(v: LevelSpec)
    requires
        v.well_formed(),
    ensures
        parse_spec(render_spec(v@)) == Ok::<Seq<Seq<char>>, ErrorView>(v@),
{
    let ts = v@;
    assert forall|k: int| 0 <= k < ts.len() implies dot_free(#[trigger] ts[k]) by {
        lemma_valid_dot_free(ts[k]);
    }
    lemma_split_join(ts);
    lemma_first_bad_none(ts, 0);
}

} // verus!
