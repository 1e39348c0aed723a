//! The prompt template renderer: text with `{variable}` substitutions and
//! blocks that are shown when a variable is set (`{?name ...}`) or unset
//! (`{!name ...}`).

use crate::text::{
    find_char, find_pair, first_index_from, from_chars, lemma_first_index_from, pair_map,
    slice_chars, to_chars, value_of,
};
use vstd::prelude::*;

verus! {

/// Whether a block is shown when its variable is set or when it is unset.
#[derive(Clone, Copy, Debug, PartialEq, Eq, Structural)]
pub enum BlockType {
    Yes,
    No,
}

/// One part of a parsed template.
#[derive(Debug)]
pub enum Expr {
    Text(String),
    Variable(String),
    Block(BlockType, String, Vec<Expr>),
}

/// The mathematical value of an [`Expr`].
pub ghost enum ExprModel {
    Text(Seq<char>),
    Variable(Seq<char>),
    Block(BlockType, Seq<char>, Seq<ExprModel>),
}

impl View for Expr {
    type V = ExprModel;

    open spec fn view(&self) -> ExprModel
        decreases self,
    {
        match self {
            Expr::Text(text) => ExprModel::Text(text@),
            Expr::Variable(name) => ExprModel::Variable(name@),
            Expr::Block(kind, name, parts) => ExprModel::Block(
                *kind,
                name@,
                Seq::new(
                    parts.len() as nat,
                    |i: int|
                        if 0 <= i < parts.len() {
                            parts[i].view()
                        } else {
                            ExprModel::Text(Seq::empty())
                        },
                ),
            ),
        }
    }
}

impl DeepView for Expr {
    type V = ExprModel;

    open spec fn deep_view(&self) -> ExprModel {
        self@
    }
}

/// The position of the `}` that closes a block, scanning from `from` with
/// `depth` inner blocks still open; the length of `s` where the block is never
/// closed.
pub open spec fn closing(s: Seq<char>, from: int, depth: nat) -> int
    decreases s.len() - from,
{
    if from < 0 || from >= s.len() {
        s.len() as int
    } else if s[from] == '}' {
        if depth == 0 {
            from
        } else {
            closing(s, from + 1, (depth - 1) as nat)
        }
    } else if s[from] == '{' {
        closing(s, from + 1, depth + 1)
    } else {
        closing(s, from + 1, depth)
    }
}

/// A piece of literal text as a template part: nothing where it is empty.
pub open spec fn text_part(text: Seq<char>) -> Seq<ExprModel> {
    if text.len() == 0 {
        Seq::empty()
    } else {
        seq![ExprModel::Text(text)]
    }
}

/// The parts of the template `s` from position `from` on.
///
/// Text runs up to the next `{`. The block that the `{` opens ends at the `}`
/// that balances it; what follows is parsed in the same way. Where the block
/// is never closed, the `{` is dropped and the rest is literal text.
pub open spec fn parse_from(s: Seq<char>, from: int) -> Seq<ExprModel>
    decreases s.len(), s.len() - from,
{
    if from < 0 || from >= s.len() {
        Seq::empty()
    } else {
        let open = first_index_from(s, from, '{');
        if open < from || open >= s.len() {
            text_part(s.subrange(from, s.len() as int))
        } else {
            let close = closing(s, open + 1, 0);
            if close <= open || close >= s.len() {
                text_part(s.subrange(from, open)) + text_part(
                    s.subrange(open + 1, s.len() as int),
                )
            } else {
                text_part(s.subrange(from, open)) + block_part(s.subrange(open + 1, close))
                    + parse_from(s, close + 1)
            }
        }
    }
}

/// The part that the inside of a block stands for.
///
/// Without a space it is a variable. Up to the first space it is a name: with
/// a leading `?` or `!` the rest is a template that is shown when the variable
/// is set, or unset; any other name makes the whole block, braces included,
/// literal text. An empty block stands for nothing.
pub open spec fn block_part(value: Seq<char>) -> Seq<ExprModel>
    decreases value.len(), value.len() + 1,
{
    if value.len() == 0 {
        Seq::empty()
    } else {
        let space = first_index_from(value, 0, ' ');
        if space < 0 || space >= value.len() {
            seq![ExprModel::Variable(value)]
        } else {
            let name = value.subrange(0, space);
            let tail = value.subrange(space + 1, value.len() as int);
            if name.len() > 0 && name[0] == '?' {
                seq![
                    ExprModel::Block(
                        BlockType::Yes,
                        name.subrange(1, name.len() as int),
                        parse_from(tail, 0),
                    ),
                ]
            } else if name.len() > 0 && name[0] == '!' {
                seq![
                    ExprModel::Block(
                        BlockType::No,
                        name.subrange(1, name.len() as int),
                        parse_from(tail, 0),
                    ),
                ]
            } else {
                seq![ExprModel::Text(seq!['{'] + value + seq!['}'])]
            }
        }
    }
}

/// The parts of a template.
pub open spec fn parse_model(template: Seq<char>) -> Seq<ExprModel> {
    parse_from(template, 0)
}

/// Whether a value counts as set: it is neither empty nor `0` nor `false`.
pub open spec fn truthy(value: Seq<char>) -> bool {
    !(value.len() == 0 || value == seq!['0'] || value == seq!['f', 'a', 'l', 's', 'e'])
}

/// What one part renders to.
pub open spec fn eval_part(part: ExprModel, variables: Map<Seq<char>, Seq<char>>) -> Seq<char>
    decreases part, 0nat,
{
    match part {
        ExprModel::Text(text) => text,
        ExprModel::Variable(name) => value_of(variables, name),
        ExprModel::Block(kind, name, parts) => {
            if truthy(value_of(variables, name)) == (kind == BlockType::Yes) {
                eval_parts(parts, variables, parts.len())
            } else {
                Seq::empty()
            }
        },
    }
}

/// What the first `count` parts of a list render to, one after the other.
pub open spec fn eval_parts(
    parts: Seq<ExprModel>,
    variables: Map<Seq<char>, Seq<char>>,
    count: nat,
) -> Seq<char>
    decreases parts, count,
{
    if count == 0 || count > parts.len() {
        Seq::empty()
    } else {
        eval_parts(parts, variables, (count - 1) as nat) + eval_part(
            parts[count - 1],
            variables,
        )
    }
}

/// What a list of parts renders to.
pub open spec fn eval_model(parts: Seq<ExprModel>, variables: Map<Seq<char>, Seq<char>>) -> Seq<
    char,
> {
    eval_parts(parts, variables, parts.len())
}

/// What a template renders to.
pub open spec fn render_model(template: Seq<char>, variables: Map<Seq<char>, Seq<char>>) -> Seq<
    char,
> {
    eval_model(parse_model(template), variables)
}

fn find_closing(chars: &Vec<char>, from: usize) -> (at: usize)
    requires
        from <= chars.len(),
    ensures
        at == closing(chars@, from as int, 0),
        from <= at <= chars.len(),
{
    let mut at: usize = from;
    let mut depth: usize = 0;
    while at < chars.len()
        invariant
            from <= at <= chars.len(),
            depth <= at - from,
            closing(chars@, at as int, depth as nat) == closing(chars@, from as int, 0),
        decreases chars.len() - at,
    {
        let c = chars[at];
        if c == '}' {
            if depth == 0 {
                return at;
            }
            depth -= 1;
        } else if c == '{' {
            depth += 1;
        }
        at += 1;
    }
    at
}

/// Appends `chars[from..to]` to the parts as literal text, unless it is empty.
pub fn add_text(exprs: &mut Vec<Expr>, chars: &Vec<char>, from: usize, to: usize)
    requires
        from <= to <= chars.len(),
    ensures
        final(exprs).deep_view() == old(exprs).deep_view() + text_part(
            chars@.subrange(from as int, to as int),
        ),
{
    let ghost before = exprs.deep_view();
    if from < to {
        let part = Expr::Text(from_chars(chars, from, to));
        exprs.push(part);
        assert(exprs.deep_view() =~= before + seq![part@]);
    } else {
        assert(exprs.deep_view() =~= before + Seq::<ExprModel>::empty());
    }
}

proof fn lemma_block_view(kind: BlockType, name: String, parts: Vec<Expr>)
    ensures
        Expr::Block(kind, name, parts)@ == ExprModel::Block(kind, name@, parts.deep_view()),
{
    let shown = Expr::Block(kind, name, parts)@;
    assert(shown is Block);
    assert(shown->Block_0 == kind);
    assert(shown->Block_1 == name@);
    let inner = shown->Block_2;
    assert(inner.len() == parts.deep_view().len());
    assert forall|i: int| 0 <= i < inner.len() implies inner[i] == parts.deep_view()[i] by {
        assert(parts.deep_view()[i] == parts[i].deep_view());
    }
    assert(inner =~= parts.deep_view());
}

/// Parses the inside of a block that is not empty.
pub fn parse_block(value: &Vec<char>) -> (part: Expr)
    requires
        value.len() > 0,
    ensures
        seq![part@] == block_part(value@),
    decreases value.len(), 0nat,
{
    let space = find_char(value, 0, ' ');
    proof {
        lemma_first_index_from(value@, 0, ' ');
    }
    if space >= value.len() {
        let name = from_chars(value, 0, value.len());
        assert(name@ =~= value@);
        Expr::Variable(name)
    } else {
        let ghost name = value@.subrange(0, space as int);
        let ghost rest = value@.subrange(space + 1, value.len() as int);
        if space > 0 && (value[0] == '?' || value[0] == '!') {
            assert(name[0] == value@[0]);
            let kind = if value[0] == '?' {
                BlockType::Yes
            } else {
                BlockType::No
            };
            let tail = slice_chars(value, space + 1, value.len());
            let parts = parse_chars(&tail);
            let label = from_chars(value, 1, space);
            assert(label@ =~= name.subrange(1, name.len() as int));
            proof {
                lemma_block_view(kind, label, parts);
            }
            let part = Expr::Block(kind, label, parts);
            assert(part@ == ExprModel::Block(kind, name.subrange(1, name.len() as int), parse_from(rest, 0)));
            part
        } else {
            assert(!(name.len() > 0 && name[0] == '?'));
            assert(!(name.len() > 0 && name[0] == '!'));
            let mut text = String::new();
            text.push('{');
            let inside = from_chars(value, 0, value.len());
            assert(inside@ =~= value@);
            text.append(inside.as_str());
            text.push('}');
            assert(text@ =~= seq!['{'] + value@ + seq!['}']);
            Expr::Text(text)
        }
    }
}

/// Parses a template given by its characters.
pub fn parse_chars(chars: &Vec<char>) -> (exprs: Vec<Expr>)
    ensures
        exprs.deep_view() == parse_model(chars@),
    decreases chars.len(), 1nat,
{
    let ghost s = chars@;
    let mut exprs: Vec<Expr> = Vec::new();
    let mut at: usize = 0;
    assert(exprs.deep_view() + parse_from(s, 0) =~= parse_from(s, 0));
    while at < chars.len()
        invariant
            at <= chars.len(),
            s == chars@,
            exprs.deep_view() + parse_from(s, at as int) == parse_from(s, 0),
        decreases chars.len() - at,
    {
        let ghost done = exprs.deep_view();
        let open = find_char(chars, at, '{');
        if open >= chars.len() {
            add_text(&mut exprs, chars, at, chars.len());
            assert(exprs.deep_view() + parse_from(s, s.len() as int) =~= done + parse_from(
                s,
                at as int,
            ));
            at = chars.len();
        } else {
            let close = find_closing(chars, open + 1);
            if close >= chars.len() {
                add_text(&mut exprs, chars, at, open);
                add_text(&mut exprs, chars, open + 1, chars.len());
                assert(exprs.deep_view() + parse_from(s, s.len() as int) =~= done + parse_from(
                    s,
                    at as int,
                ));
                at = chars.len();
            } else {
                add_text(&mut exprs, chars, at, open);
                let ghost lead = exprs.deep_view();
                if close > open + 1 {
                    let value = slice_chars(chars, open + 1, close);
                    let part = parse_block(&value);
                    exprs.push(part);
                    assert(exprs.deep_view() =~= lead + block_part(value@));
                } else {
                    assert(exprs.deep_view() =~= lead + block_part(
                        s.subrange(open + 1, close as int),
                    ));
                }
                assert(exprs.deep_view() + parse_from(s, close + 1) =~= done + parse_from(
                    s,
                    at as int,
                ));
                at = close + 1;
            }
        }
    }
    assert(exprs.deep_view() + Seq::<ExprModel>::empty() =~= exprs.deep_view());
    exprs
}

/// Parses a template into its parts.
pub fn parse_template(template: &str) -> (exprs: Vec<Expr>)
    ensures
        exprs.deep_view() == parse_model(template@),
{
    let chars = to_chars(template);
    parse_chars(&chars)
}

/// Whether a value counts as set.
pub fn truly(value: &str) -> (set: bool)
    ensures
        set == truthy(value@),
{
    proof {
        reveal_strlit("0");
        reveal_strlit("false");
        assert("0"@ =~= seq!['0']);
        assert("false"@ =~= seq!['f', 'a', 'l', 's', 'e']);
    }
    !(value.is_empty() || value.eq("0") || value.eq("false"))
}

/// Renders parsed parts with the given variables. A variable that is not
/// given renders as empty text and counts as unset.
#[verifier::loop_isolation(false)]
pub fn eval_exprs(exprs: &Vec<Expr>, variables: &Vec<(String, String)>) -> (output: String)
    ensures
        output@ == eval_model(exprs.deep_view(), pair_map(variables.deep_view())),
    decreases exprs,
{
    let ghost parts = exprs.deep_view();
    let ghost map = pair_map(variables.deep_view());
    let mut output = String::new();
    let mut i: usize = 0;
    while i < exprs.len()
        invariant
            i <= exprs.len(),
            output@ == eval_parts(parts, map, i as nat),
        decreases exprs.len() - i,
    {
        let part = &exprs[i];
        let ghost before = output@;
        assert(parts[i as int] == part@);
        match part {
            Expr::Text(text) => {
                output.append(text.as_str());
                assert(eval_part(part@, map) == text@);
            },
            Expr::Variable(name) => {
                assert(eval_part(part@, map) == value_of(map, name@));
                match find_pair(variables, name.as_str()) {
                    Some(value) => {
                        output.append(value.as_str());
                    },
                    None => {
                        assert(before + Seq::<char>::empty() =~= before);
                    },
                }
            },
            Expr::Block(kind, name, inner) => {
                proof {
                    lemma_block_view(*kind, *name, *inner);
                    reveal_strlit("");
                    assert(""@ =~= Seq::<char>::empty());
                }
                let set = match find_pair(variables, name.as_str()) {
                    Some(value) => truly(value.as_str()),
                    None => truly(""),
                };
                assert(set == truthy(value_of(map, name@)));
                let wanted = match kind {
                    BlockType::Yes => set,
                    BlockType::No => !set,
                };
                assert(wanted == (set == (*kind == BlockType::Yes)));
                if wanted {
                    let shown = eval_exprs(inner, variables);
                    output.append(shown.as_str());
                    assert(eval_part(part@, map) == eval_parts(
                        inner.deep_view(),
                        map,
                        inner.deep_view().len(),
                    ));
                } else {
                    assert(eval_part(part@, map) == Seq::<char>::empty());
                    assert(before + Seq::<char>::empty() =~= before);
                }
            },
        }
        assert(output@ == before + eval_part(parts[i as int], map));
        i += 1;
        assert(eval_parts(parts, map, i as nat) == eval_parts(parts, map, (i - 1) as nat)
            + eval_part(parts[i - 1], map));
    }
    output
}

/// Renders a prompt template with the given variables, each a `(name, value)`
/// pair; of two pairs with one name the later counts.
pub fn render_prompt(template: &str, variables: &Vec<(String, String)>) -> (output: String)
    ensures
        output@ == render_model(template@, pair_map(variables.deep_view())),
{
    let exprs = parse_template(template);
    eval_exprs(&exprs, variables)
}

} // verus!
