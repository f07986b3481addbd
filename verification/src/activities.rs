//! Bot activities: how each activity mode is announced, and the `{name}`
//! templates that activity texts are assembled from.
use vstd::prelude::*;
use crate::text::{chars_of, push_char};

verus! {

broadcast use vstd::string::group_string_axioms;

#[derive(Debug, Clone, Copy, PartialEq, Eq, Structural)]
pub enum ActivityMode {
    Playing,
    Listening,
    Watching,
    Competing,
    Custom,
}

/// The words that announce each mode; a custom activity has none.
pub open spec fn mode_text(m: ActivityMode) -> Option<Seq<char>> {
    match m {
        ActivityMode::Playing => Some("Playing"@),
        ActivityMode::Listening => Some("Listening to"@),
        ActivityMode::Watching => Some("Watching"@),
        ActivityMode::Competing => Some("Competing in"@),
        ActivityMode::Custom => None,
    }
}

impl ActivityMode {
    pub fn to_str(self) -> (r: Option<&'static str>)
        ensures
            match mode_text(self) {
                Some(t) => r matches Some(s) && s@ == t,
                None => r is None,
            },
    {
        match self {
            ActivityMode::Playing => Some("Playing"),
            ActivityMode::Listening => Some("Listening to"),
            ActivityMode::Watching => Some("Watching"),
            ActivityMode::Competing => Some("Competing in"),
            ActivityMode::Custom => None,
        }
    }
}

/// One piece of an assembled template: a character copied to the output,
/// or the name of an argument whose value goes in its place.
#[derive(Debug, Clone)]
pub enum TemplatePiece {
    Literal(char),
    Argument(String),
}

/// A template piece by value.
pub enum PieceView {
    Literal(char),
    Argument(Seq<char>),
}

impl TemplatePiece {
    pub open spec fn view_piece(&self) -> PieceView {
        match self {
            TemplatePiece::Literal(c) => PieceView::Literal(*c),
            TemplatePiece::Argument(s) => PieceView::Argument(s@),
        }
    }
}

pub open spec fn pieces_view(v: Seq<TemplatePiece>) -> Seq<PieceView> {
    v.map_values(|p: TemplatePiece| p.view_piece())
}

/// A template is malformed: an unbalanced or nested brace.
#[derive(Debug, Clone, Copy, PartialEq, Eq, Structural)]
pub struct TemplateError;

pub open spec fn prepend(p: PieceView, r: Option<Seq<PieceView>>) -> Option<Seq<PieceView>> {
    match r {
        Some(t) => Some(seq![p] + t),
        None => None,
    }
}

/// The pieces of the rest `s` of a template, read inside an argument (whose
/// name so far is `cur`) or outside one. `{{` and `}}` stand for a brace;
/// `{` opens an argument and `}` closes it; a `{` inside an argument, a `}`
/// outside one, or an argument left open at the end makes the template malformed.
pub open spec fn template_from(s: Seq<char>, inside: bool, cur: Seq<char>) -> Option<Seq<PieceView>>
    decreases s.len(),
{
    if s.len() == 0 {
        if inside { None } else { Some(seq![]) }
    } else if s[0] == '{' {
        if inside {
            None
        } else if s.len() > 1 && s[1] == '{' {
            prepend(PieceView::Literal('{'), template_from(s.skip(2), false, cur))
        } else {
            template_from(s.drop_first(), true, cur)
        }
    } else if s[0] == '}' {
        if !inside {
            None
        } else if s.len() > 1 && s[1] == '}' {
            prepend(PieceView::Literal('}'), template_from(s.skip(2), true, cur))
        } else {
            prepend(PieceView::Argument(cur), template_from(s.drop_first(), false, seq![]))
        }
    } else if inside {
        template_from(s.drop_first(), true, cur.push(s[0]))
    } else {
        prepend(PieceView::Literal(s[0]), template_from(s.drop_first(), false, cur))
    }
}

pub open spec fn template_spec(s: Seq<char>) -> Option<Seq<PieceView>> {
    template_from(s, false, seq![])
}

pub open spec fn with_prefix(out: Seq<PieceView>, r: Option<Seq<PieceView>>) -> Option<Seq<PieceView>> {
    match r {
        Some(t) => Some(out + t),
        None => None,
    }
}

proof fn lemma_prepend_prefix(out: Seq<PieceView>, p: PieceView, r: Option<Seq<PieceView>>)
    ensures with_prefix(out, prepend(p, r)) == with_prefix(out.push(p), r),
{
    if let Some(t) = r {
        assert(out + (seq![p] + t) =~= out.push(p) + t);
    }
}

proof fn lemma_push_piece(old: Seq<TemplatePiece>, p: TemplatePiece)
    ensures pieces_view(old.push(p)) == pieces_view(old).push(p.view_piece()),
{
    assert(pieces_view(old.push(p)) =~= pieces_view(old).push(p.view_piece()));
}

fn with_char(s: String, c: char) -> (r: String)
    ensures r@ == s@.push(c),
{
    let mut s = s;
    push_char(&mut s, c);
    s
}

fn push_piece(out: &mut Vec<TemplatePiece>, p: TemplatePiece)
    ensures
        final(out)@ == old(out)@.push(p),
        pieces_view(final(out)@) == pieces_view(old(out)@).push(p.view_piece()),
{
    let ghost o = out@;
    out.push(p);
    proof { lemma_push_piece(o, p); }
}

/// Reads the template from position `i`: how many characters were read, the
/// new state, and the piece they give, if any.
fn template_step(chars: &Vec<char>, i: usize, inside: bool, cur: String)
    -> (r: Result<(usize, bool, String, Option<TemplatePiece>), TemplateError>)
    requires
        i < chars@.len(),
        !inside ==> cur@ == Seq::<char>::empty(),
    ensures
        match r {
            Ok((step, now_inside, now_cur, emit)) => {
                &&& 1 <= step <= 2
                &&& i + step <= chars@.len()
                &&& (!now_inside ==> now_cur@ == Seq::<char>::empty())
                &&& template_from(chars@.skip(i as int), inside, cur@) == match emit {
                    Some(p) => prepend(p.view_piece(), template_from(chars@.skip(i + step), now_inside, now_cur@)),
                    None => template_from(chars@.skip(i + step), now_inside, now_cur@),
                }
            },
            Err(_) => template_from(chars@.skip(i as int), inside, cur@) is None,
        },
{
    let ghost s = chars@.skip(i as int);
    assert(s[0] == chars@[i as int]);
    assert(s.drop_first() =~= chars@.skip(i + 1));
    let c = chars[i];
    let next_same = i < chars.len() - 1 && chars[i + 1] == c;
    proof {
        if i + 1 < chars.len() {
            assert(s[1] == chars@[i + 1]);
            assert(s.skip(2) =~= chars@.skip(i + 2));
        }
    }
    if c == '{' {
        if inside {
            Err(TemplateError)
        } else if next_same {
            Ok((2, false, cur, Some(TemplatePiece::Literal('{'))))
        } else {
            Ok((1, true, cur, None))
        }
    } else if c == '}' {
        if !inside {
            Err(TemplateError)
        } else if next_same {
            Ok((2, true, cur, Some(TemplatePiece::Literal('}'))))
        } else {
            Ok((1, false, String::new(), Some(TemplatePiece::Argument(cur))))
        }
    } else if inside {
        Ok((1, true, with_char(cur, c), None))
    } else {
        Ok((1, false, cur, Some(TemplatePiece::Literal(c))))
    }
}

/// Splits a template into its pieces.
pub fn parse_template(template: &str) -> (r: Result<Vec<TemplatePiece>, TemplateError>)
    ensures
        match template_spec(template@) {
            Some(pieces) => r matches Ok(v) && pieces_view(v@) == pieces,
            None => r == Err::<Vec<TemplatePiece>, TemplateError>(TemplateError),
        },
{
    let chars = chars_of(template);
    let mut out: Vec<TemplatePiece> = Vec::new();
    let mut cur = String::new();
    let mut inside = false;
    let mut i: usize = 0;
    assert(chars@.skip(0) =~= chars@);
    assert(pieces_view(out@) =~= Seq::<PieceView>::empty());
    proof {
        if let Some(t) = template_spec(template@) {
            assert(Seq::<PieceView>::empty() + t =~= t);
        }
    }
    while i < chars.len()
        invariant
            chars@ == template@,
            i <= chars@.len(),
            !inside ==> cur@ == Seq::<char>::empty(),
            template_spec(template@) == with_prefix(pieces_view(out@), template_from(chars@.skip(i as int), inside, cur@)),
        decreases chars.len() - i,
    {
        let (step, now_inside, now_cur, emit) = match template_step(&chars, i, inside, cur) {
            Ok(t) => t,
            Err(e) => {
                return Err(e);
            },
        };
        match emit {
            Some(p) => {
                proof { lemma_prepend_prefix(pieces_view(out@), p.view_piece(), template_from(chars@.skip(i + step), now_inside, now_cur@)); }
                push_piece(&mut out, p);
            },
            None => {},
        }
        i = i + step;
        inside = now_inside;
        cur = now_cur;
    }
    assert(chars@.skip(i as int) =~= Seq::<char>::empty());
    if inside {
        return Err(TemplateError);
    }
    assert(pieces_view(out@) + Seq::<PieceView>::empty() =~= pieces_view(out@));
    Ok(out)
}

/// A template piece with its argument looked up: a character, or the place
/// of the argument's value among the arguments given.
#[derive(Debug, Clone, Copy, PartialEq, Eq, Structural)]
pub enum ResolvedPiece {
    Literal(char),
    Argument(usize),
}

/// Every argument a template names is among `names`.
pub open spec fn all_known(pieces: Seq<PieceView>, names: Seq<Seq<char>>) -> bool {
    forall|i: int| 0 <= i < pieces.len() ==> (#[trigger] pieces[i] matches PieceView::Argument(n) ==> names.contains(n))
}

/// `r` is `p` with its argument (if any) found at its place in `names`.
pub open spec fn resolved_as(p: PieceView, r: ResolvedPiece, names: Seq<Seq<char>>) -> bool {
    match (p, r) {
        (PieceView::Literal(c), ResolvedPiece::Literal(d)) => c == d,
        (PieceView::Argument(n), ResolvedPiece::Argument(k)) => k < names.len() && names[k as int] == n,
        _ => false,
    }
}

fn name_index(names: &Vec<String>, name: &str) -> (r: Option<usize>)
    ensures
        match r {
            Some(k) => k < names@.len() && names@[k as int]@ == name@,
            None => !names@.map_values(|s: String| s@).contains(name@),
        },
{
    let mut i: usize = 0;
    while i < names.len()
        invariant
            i <= names@.len(),
            forall|k: int| 0 <= k < i ==> names@[k]@ != name@,
        decreases names.len() - i,
    {
        if crate::text::str_eq(names[i].as_str(), name) {
            return Some(i);
        }
        i = i + 1;
    }
    proof {
        let ns = names@.map_values(|s: String| s@);
        if ns.contains(name@) {
            let k = choose|k: int| 0 <= k < ns.len() && #[trigger] ns[k] == name@;
            assert(names@[k]@ == name@);
        }
    }
    None
}

/// Looks up the arguments of a template's pieces among the names of the
/// arguments given; a template naming an argument that was not given
/// cannot be assembled.
pub fn resolve_template(pieces: &Vec<TemplatePiece>, names: &Vec<String>) -> (r: Result<Vec<ResolvedPiece>, TemplateError>)
    ensures
        r is Ok <==> all_known(pieces_view(pieces@), names@.map_values(|s: String| s@)),
        r matches Ok(v) ==> v@.len() == pieces@.len() && forall|i: int| 0 <= i < v@.len()
            ==> resolved_as(pieces_view(pieces@)[i], #[trigger] v@[i], names@.map_values(|s: String| s@)),
{
    let ghost ns = names@.map_values(|s: String| s@);
    let ghost ps = pieces_view(pieces@);
    let mut out: Vec<ResolvedPiece> = Vec::new();
    let mut i: usize = 0;
    while i < pieces.len()
        invariant
            i <= pieces@.len(),
            ns == names@.map_values(|s: String| s@),
            ps == pieces_view(pieces@),
            out@.len() == i,
            forall|j: int| 0 <= j < i ==> resolved_as(ps[j], #[trigger] out@[j], ns),
            forall|j: int| 0 <= j < i ==> (#[trigger] ps[j] matches PieceView::Argument(n) ==> ns.contains(n)),
        decreases pieces.len() - i,
    {
        assert(ps[i as int] == pieces@[i as int].view_piece());
        match &pieces[i] {
            TemplatePiece::Literal(c) => {
                out.push(ResolvedPiece::Literal(*c));
            },
            TemplatePiece::Argument(n) => {
                match name_index(names, n.as_str()) {
                    Some(k) => {
                        assert(ns[k as int] == names@[k as int]@);
                        out.push(ResolvedPiece::Argument(k));
                        assert(ns.contains(n@));
                    },
                    None => {
                        assert(!all_known(ps, ns)) by {
                            assert(ps[i as int] matches PieceView::Argument(m) && m == n@);
                        }
                        return Err(TemplateError);
                    },
                }
            },
        }
        i = i + 1;
    }
    Ok(out)
}

/// The text a template assembles to: each character as it is, each argument
/// as the text its value printed.
pub open spec fn assembled(pieces: Seq<ResolvedPiece>, printed: Seq<Seq<char>>) -> Seq<char>
    decreases pieces.len(),
{
    if pieces.len() == 0 {
        seq![]
    } else {
        assembled(pieces.drop_last(), printed) + match pieces.last() {
            ResolvedPiece::Literal(c) => seq![c],
            ResolvedPiece::Argument(k) => printed[k as int],
        }
    }
}

/// Assembles a template from its resolved pieces and the text each argument
/// value printed (`printed[k]` for the argument at place `k`).
pub fn assemble_pieces(pieces: &Vec<ResolvedPiece>, printed: &Vec<String>) -> (r: String)
    requires
        forall|i: int| 0 <= i < pieces@.len() ==>
            (#[trigger] pieces@[i] matches ResolvedPiece::Argument(k) ==> k < printed@.len()),
    ensures r@ == assembled(pieces@, printed@.map_values(|s: String| s@)),
{
    let ghost ps = printed@.map_values(|s: String| s@);
    let mut out = String::new();
    let mut i: usize = 0;
    while i < pieces.len()
        invariant
            i <= pieces@.len(),
            ps == printed@.map_values(|s: String| s@),
            forall|j: int| 0 <= j < pieces@.len() ==>
                (#[trigger] pieces@[j] matches ResolvedPiece::Argument(k) ==> k < printed@.len()),
            out@ == assembled(pieces@.take(i as int), ps),
        decreases pieces.len() - i,
    {
        assert(pieces@.take(i + 1).drop_last() =~= pieces@.take(i as int));
        assert(pieces@.take(i + 1).last() == pieces@[i as int]);
        match pieces[i] {
            ResolvedPiece::Literal(c) => push_char(&mut out, c),
            ResolvedPiece::Argument(k) => crate::text::push_str(&mut out, printed[k].as_str()),
        }
        i = i + 1;
    }
    assert(pieces@.take(pieces@.len() as int) =~= pieces@);
    out
}

/// Each character of `s` as a literal piece.
pub open spec fn literals(s: Seq<char>) -> Seq<PieceView>
    decreases s.len(),
{
    if s.len() == 0 { seq![] } else { seq![PieceView::Literal(s[0])] + literals(s.drop_first()) }
}

/// A template without braces is its own text: each character is copied.
pub proof fn law_plain_template(s: Seq<char>)
    requires forall|i: int| 0 <= i < s.len() ==> s[i] != '{' && s[i] != '}',
    ensures template_spec(s) == Some(literals(s)),
    decreases s.len(),
{
    if s.len() > 0 {
        let t = s.drop_first();
        assert forall|i: int| 0 <= i < t.len() implies t[i] != '{' && t[i] != '}' by {
            assert(t[i] == s[i + 1]);
        }
        law_plain_template(t);
    }
}

/// `{{` and `}}` outside an argument stand for single braces.
pub proof fn law_escaped_braces()
    ensures
        template_spec(seq!['{', '{']) == Some(seq![PieceView::Literal('{')]),
        template_spec(seq!['{', 'a', '}']) == Some(seq![PieceView::Argument(seq!['a'])]),
        template_spec(seq!['}']) is None,
        template_spec(seq!['{']) is None,
{
    reveal_with_fuel(template_from, 4);
    assert(seq!['{', '{'].skip(2) =~= Seq::<char>::empty());
    assert(seq!['{', 'a', '}'].drop_first() =~= seq!['a', '}']);
    assert(seq!['a', '}'].drop_first() =~= seq!['}']);
    assert(seq!['}'].drop_first() =~= Seq::<char>::empty());
    assert(seq!['{'].drop_first() =~= Seq::<char>::empty());
    assert(seq![PieceView::Literal('{')] + Seq::<PieceView>::empty() =~= seq![PieceView::Literal('{')]);
    assert(Seq::<char>::empty().push('a') =~= seq!['a']);
    assert(seq![PieceView::Argument(seq!['a'])] + Seq::<PieceView>::empty() =~= seq![PieceView::Argument(seq!['a'])]);
}

} // verus!
