//! Argument lists: `#[designator(argument, argument, ...)]`.

use vstd::prelude::*;
use vstd::slice::slice_subrange;
use crate::dialect::{check_head, head_fault};
use crate::error::MalformedReason;
use crate::ident::Ident;
use crate::token::{balanced, open_delimiters, Delimiter, Token, TokenView};
use crate::token::{lemma_balanced_concat, lemma_balanced_plain};
use crate::token::{lemma_delimiters_after_concat, lemma_delimiters_after_none};

verus! {

/// The token at `i` is a comma outside every delimiter.
pub open spec fn is_separator(tokens: Seq<TokenView>, i: int) -> bool {
    &&& 0 <= i < tokens.len()
    &&& tokens[i] == TokenView::Punct(',')
    &&& balanced(tokens.take(i))
}

/// The token at `i` is the first comma outside every delimiter.
pub open spec fn is_first_separator(tokens: Seq<TokenView>, i: int) -> bool {
    &&& is_separator(tokens, i)
    &&& forall|j: int| 0 <= j < i ==> !is_separator(tokens, j)
}

/// `tokens` cut at each comma that stands outside every delimiter. The commas
/// themselves are dropped; a comma at the very end closes the last argument
/// and opens no new one.
pub open spec fn arguments(tokens: Seq<TokenView>) -> Seq<Seq<TokenView>>
    decreases tokens.len(),
{
    if tokens.len() == 0 {
        Seq::empty()
    } else if exists|i: int| is_first_separator(tokens, i) {
        let i = choose|i: int| is_first_separator(tokens, i);
        seq![tokens.take(i)] + arguments(tokens.skip(i + 1))
    } else {
        seq![tokens]
    }
}

/// Where the first separator of `tokens` stands at `i`, the first argument is
/// what precedes it and the others are the arguments of what follows.
pub proof fn lemma_arguments_cut(tokens: Seq<TokenView>, i: int)
    requires
        is_first_separator(tokens, i),
    ensures
        arguments(tokens) == seq![tokens.take(i)] + arguments(tokens.skip(i + 1)),
{
    let k = choose|k: int| is_first_separator(tokens, k);
    assert(k == i);
}

/// Without a separator, `tokens` are one argument, or none where empty.
pub proof fn lemma_arguments_last(tokens: Seq<TokenView>)
    requires
        forall|j: int| 0 <= j < tokens.len() ==> !is_separator(tokens, j),
    ensures
        arguments(tokens) == if tokens.len() == 0 {
            Seq::<Seq<TokenView>>::empty()
        } else {
            seq![tokens]
        },
{
}

/// Where there is a separator, there is a first one.
pub proof fn lemma_first_separator_exists(tokens: Seq<TokenView>, j: int)
    requires
        is_separator(tokens, j),
    ensures
        exists|i: int| is_first_separator(tokens, i),
    decreases j,
{
    if exists|earlier: int| 0 <= earlier < j && is_separator(tokens, earlier) {
        let earlier = choose|earlier: int| 0 <= earlier < j && is_separator(tokens, earlier);
        lemma_first_separator_exists(tokens, earlier);
    } else {
        assert(is_first_separator(tokens, j));
    }
}

/// There are no arguments only where there are no tokens.
pub proof fn lemma_no_arguments_iff_no_tokens(tokens: Seq<TokenView>)
    ensures
        arguments(tokens).len() == 0 <==> tokens.len() == 0,
{
    if tokens.len() > 0 && exists|i: int| is_first_separator(tokens, i) {
        let i = choose|i: int| is_first_separator(tokens, i);
        assert((seq![tokens.take(i)] + arguments(tokens.skip(i + 1))).len() > 0);
    }
}

/// No argument holds a comma outside every delimiter: each cut was made.
pub proof fn lemma_arguments_hold_no_separator(tokens: Seq<TokenView>, k: int, j: int)
    requires
        0 <= k < arguments(tokens).len(),
    ensures
        !is_separator(arguments(tokens)[k], j),
    decreases tokens.len(),
{
    if tokens.len() == 0 {
    } else if exists|i: int| is_first_separator(tokens, i) {
        let i = choose|i: int| is_first_separator(tokens, i);
        let rest = arguments(tokens.skip(i + 1));
        if k == 0 {
            if 0 <= j < i {
                assert(tokens.take(i).take(j) =~= tokens.take(j));
                assert(!is_separator(tokens, j));
            }
        } else {
            assert(arguments(tokens)[k] == rest[k - 1]);
            lemma_arguments_hold_no_separator(tokens.skip(i + 1), k - 1, j);
        }
    } else {
        if is_separator(tokens, j) {
            lemma_first_separator_exists(tokens, j);
        }
    }
}

/// `pieces` written out again, with a comma between each two.
pub open spec fn rejoined(pieces: Seq<Seq<TokenView>>) -> Seq<TokenView>
    decreases pieces.len(),
{
    if pieces.len() == 0 {
        Seq::empty()
    } else if pieces.len() == 1 {
        pieces[0]
    } else {
        pieces[0] + seq![TokenView::Punct(',')] + rejoined(pieces.skip(1))
    }
}

/// Nothing is lost in the cut: the arguments written out again are the
/// tokens, but for a comma at the very end.
pub proof fn lemma_arguments_rejoin(tokens: Seq<TokenView>)
    ensures
        tokens == rejoined(arguments(tokens)) || tokens == rejoined(arguments(tokens)).push(
            TokenView::Punct(','),
        ),
    decreases tokens.len(),
{
    if tokens.len() == 0 {
    } else if exists|i: int| is_first_separator(tokens, i) {
        let i = choose|i: int| is_first_separator(tokens, i);
        let after = tokens.skip(i + 1);
        let rest = arguments(after);
        let all = seq![tokens.take(i)] + rest;
        lemma_no_arguments_iff_no_tokens(after);
        lemma_arguments_rejoin(after);
        assert(tokens =~= tokens.take(i) + seq![TokenView::Punct(',')] + after);
        assert(all[0] == tokens.take(i));
        if rest.len() == 0 {
            assert(all.len() == 1);
            assert(tokens =~= tokens.take(i).push(TokenView::Punct(',')));
        } else {
            assert(all.skip(1) =~= rest);
            assert(rejoined(all) == tokens.take(i) + seq![TokenView::Punct(',')] + rejoined(rest));
            if after == rejoined(rest) {
            } else {
                assert(tokens =~= (tokens.take(i) + seq![TokenView::Punct(',')] + rejoined(
                    rest,
                )).push(TokenView::Punct(',')));
            }
        }
    } else {
        assert(arguments(tokens) == seq![tokens]);
    }
}

/// `piece` can stand as one argument of a list: it is not empty, its
/// delimiters balance, and it holds no comma outside every delimiter.
pub open spec fn is_argument(piece: Seq<TokenView>) -> bool {
    &&& piece.len() > 0
    &&& balanced(piece)
    &&& forall|j: int| 0 <= j < piece.len() ==> !is_separator(piece, j)
}

/// A list that is written out from arguments is cut into those arguments
/// again: the list is balanced, and its arguments are the pieces it was
/// written from, the same in number, order and content.
pub proof fn lemma_rejoined_arguments_are_cut_again(pieces: Seq<Seq<TokenView>>)
    requires
        forall|k: int| 0 <= k < pieces.len() ==> is_argument(#[trigger] pieces[k]),
    ensures
        balanced(rejoined(pieces)),
        arguments(rejoined(pieces)) == pieces,
    decreases pieces.len(),
{
    if pieces.len() == 0 {
        assert(arguments(rejoined(pieces)) =~= pieces);
    } else if pieces.len() == 1 {
        let first = pieces[0];
        assert(is_argument(first));
        lemma_arguments_last(first);
        assert(seq![first] =~= pieces);
    } else {
        let first = pieces[0];
        let rest = pieces.skip(1);
        let comma = seq![TokenView::Punct(',')];
        let written = rejoined(rest);
        let list = first + comma + written;
        let at = first.len() as int;
        assert(is_argument(first));
        assert forall|k: int| 0 <= k < rest.len() implies is_argument(#[trigger] rest[k]) by {
            assert(rest[k] == pieces[k + 1]);
        }
        lemma_rejoined_arguments_are_cut_again(rest);
        lemma_balanced_plain(TokenView::Punct(','));
        lemma_balanced_concat(first, comma);
        lemma_balanced_concat(first + comma, written);
        assert(list.take(at) =~= first);
        assert(list[at] == TokenView::Punct(','));
        assert forall|j: int| 0 <= j < at implies !is_separator(list, j) by {
            assert(list.take(j) =~= first.take(j));
            assert(list[j] == first[j]);
            assert(!is_separator(first, j));
        }
        assert(is_first_separator(list, at));
        lemma_arguments_cut(list, at);
        assert(list.skip(at + 1) =~= written);
        assert(seq![first] + rest =~= pieces);
    }
}

/// Cuts `tokens` into arguments at the commas outside every delimiter, or
/// reports by `None` that the delimiters do not balance.
pub fn split_arguments(tokens: &[Token]) -> (pieces: Option<Vec<Vec<Token>>>)
    ensures
        match pieces {
            Some(pieces) => balanced(tokens.deep_view()) && pieces.deep_view() == arguments(
                tokens.deep_view(),
            ),
            None => !balanced(tokens.deep_view()),
        },
{
    let ghost all = tokens.deep_view();
    let mut pieces: Vec<Vec<Token>> = Vec::new();
    let mut current: Vec<Token> = Vec::new();
    let mut stack: Vec<Delimiter> = Vec::new();
    let ghost mut start: int = 0;
    let mut i: usize = 0;
    assert(pieces.deep_view() =~= Seq::<Seq<TokenView>>::empty());
    assert(all.skip(0) =~= all);
    while i < tokens.len()
        invariant
            0 <= start <= i <= tokens.len(),
            all == tokens.deep_view(),
            balanced(all.take(start)),
            open_delimiters(all.subrange(start, i as int)) == Some(stack@),
            current.deep_view() == all.subrange(start, i as int),
            forall|j: int| 0 <= j < i - start ==> !is_separator(all.skip(start), j),
            arguments(all) == pieces.deep_view() + arguments(all.skip(start)),
        decreases tokens.len() - i,
    {
        let token = &tokens[i];
        let ghost rest = all.skip(start);
        let ghost seen = all.subrange(start, i as int);
        let ghost next = all.subrange(start, i + 1);
        assert(next.drop_last() =~= seen);
        assert(next.last() == token.deep_view());
        assert(rest.take(i - start) =~= seen);
        let comma = match token {
            Token::Punct(c) => *c == ',',
            _ => false,
        };
        if comma && stack.len() == 0 {
            proof {
                assert(stack@ =~= Seq::<Delimiter>::empty());
                assert(rest[i - start] == token.deep_view());
                assert(is_first_separator(rest, i - start));
                lemma_arguments_cut(rest, i - start);
                assert(rest.skip(i - start + 1) =~= all.skip(i + 1));
                lemma_delimiters_after_concat(Some(Seq::empty()), all.take(start), next);
                assert(all.take(start) + next =~= all.take(i + 1));
                assert(all.subrange(i + 1, i + 1) =~= Seq::<TokenView>::empty());
                assert(pieces.deep_view().push(current.deep_view()) + arguments(all.skip(i + 1))
                    =~= pieces.deep_view() + (seq![seen] + arguments(all.skip(i + 1))));
            }
            let ghost before = pieces.deep_view();
            pieces.push(current);
            assert(pieces.deep_view() =~= before.push(seen));
            current = Vec::new();
            assert(current.deep_view() =~= Seq::<TokenView>::empty());
            proof {
                start = i + 1;
            }
        } else {
            match token {
                Token::Open(d) => {
                    stack.push(*d);
                },
                Token::Close(d) => {
                    if stack.len() > 0 && stack[stack.len() - 1] == *d {
                        stack.pop();
                    } else {
                        proof {
                            assert(open_delimiters(next) is None);
                            lemma_delimiters_after_concat(
                                Some(Seq::empty()),
                                all.take(start),
                                next,
                            );
                            assert(all.take(start) + next =~= all.take(i + 1));
                            lemma_delimiters_after_concat(
                                Some(Seq::empty()),
                                all.take(i + 1),
                                all.skip(i + 1),
                            );
                            assert(all.take(i + 1) + all.skip(i + 1) =~= all);
                            lemma_delimiters_after_none(all.skip(i + 1));
                        }
                        return None;
                    }
                },
                _ => {},
            }
            let ghost before = current.deep_view();
            current.push(token.clone());
            assert(current.deep_view() =~= before.push(token.deep_view()));
            assert(before.push(token.deep_view()) =~= next);
        }
        i += 1;
    }
    proof {
        assert(all.subrange(start, i as int) =~= all.skip(start));
        lemma_delimiters_after_concat(Some(Seq::empty()), all.take(start), all.skip(start));
        assert(all.take(start) + all.skip(start) =~= all);
        lemma_arguments_last(all.skip(start));
    }
    if stack.len() != 0 {
        return None;
    }
    assert(stack@ =~= Seq::<Delimiter>::empty());
    if current.len() > 0 {
        let ghost before = pieces.deep_view();
        pieces.push(current);
        assert(pieces.deep_view() =~= before.push(all.skip(start)));
        assert(before.push(all.skip(start)) =~= before + seq![all.skip(start)]);
    } else {
        assert(all.skip(start).len() == 0);
        assert(pieces.deep_view() + Seq::<Seq<TokenView>>::empty() =~= pieces.deep_view());
    }
    Some(pieces)
}

/// The arguments of the annotation `tokens`, which reads
/// `#[designator(arguments)]` with balanced delimiters among the arguments,
/// or else the first thing that keeps it from reading so.
pub open spec fn argument_list(tokens: Seq<TokenView>) -> Result<
    Seq<Seq<TokenView>>,
    MalformedReason,
> {
    let n = tokens.len() as int;
    match head_fault(tokens) {
        Some(reason) => Err(reason),
        None => if !(n > 3 && tokens[3] == TokenView::Open(Delimiter::Parenthesis)) {
            Err(MalformedReason::ExpectedArgumentList)
        } else if !(n >= 6 && tokens[n - 2] == TokenView::Close(Delimiter::Parenthesis)
            && tokens[n - 1] == TokenView::Close(Delimiter::Bracket)) {
            Err(MalformedReason::Unclosed)
        } else if !balanced(tokens.subrange(4, n - 2)) {
            Err(MalformedReason::UnbalancedDelimiters)
        } else {
            Ok(arguments(tokens.subrange(4, n - 2)))
        },
    }
}

/// The arguments of one annotation, each a token sequence of its own, not
/// yet looked into.
#[derive(Debug, PartialEq, Eq)]
pub struct CommaSeparatedArguments(pub Vec<Vec<Token>>);

impl DeepView for CommaSeparatedArguments {
    type V = Seq<Seq<TokenView>>;

    open spec fn deep_view(&self) -> Seq<Seq<TokenView>> {
        self.0.deep_view()
    }
}

impl CommaSeparatedArguments {
    /// Reads an annotation of the form `#[designator(argument, ...)]` and
    /// cuts its argument list at the commas outside every delimiter.
    pub fn parse(tokens: &[Token]) -> (parsed: Result<CommaSeparatedArguments, MalformedReason>)
        ensures
            match parsed {
                Ok(list) => argument_list(tokens.deep_view()) == Ok::<
                    Seq<Seq<TokenView>>,
                    MalformedReason,
                >(list.deep_view()),
                Err(reason) => argument_list(tokens.deep_view()) == Err::<
                    Seq<Seq<TokenView>>,
                    MalformedReason,
                >(reason),
            },
    {
        let n = tokens.len();
        match check_head(tokens) {
            Some(reason) => {
                return Err(reason);
            },
            None => {},
        }
        if !(n > 3 && tokens[3].is_open(Delimiter::Parenthesis)) {
            return Err(MalformedReason::ExpectedArgumentList);
        }
        if !(n >= 6 && tokens[n - 2].is_close(Delimiter::Parenthesis) && tokens[n - 1].is_close(
            Delimiter::Bracket,
        )) {
            return Err(MalformedReason::Unclosed);
        }
        let content = slice_subrange(tokens, 4, n - 2);
        assert(content.deep_view() =~= tokens.deep_view().subrange(4, n - 2));
        match split_arguments(content) {
            Some(pieces) => Ok(CommaSeparatedArguments(pieces)),
            None => Err(MalformedReason::UnbalancedDelimiters),
        }
    }

    /// The arguments, in the order in which they were written.
    pub fn args(&self) -> (args: &Vec<Vec<Token>>)
        ensures
            args.deep_view() == self.deep_view(),
    {
        &self.0
    }
}

/// The key under which an argument list names the table.
pub const TABLE_NAME_KEY: &'static str = "table_name";

/// The key and the value of `piece`, where `piece` reads `key = value` with
/// one identifier on each side of one `=`.
pub open spec fn key_value(piece: Seq<TokenView>) -> Option<(Seq<char>, Seq<char>)> {
    if piece.len() == 3 && piece[0] is Ident && piece[1] == TokenView::Punct('=')
        && piece[2] is Ident {
        Some((piece[0]->Ident_0, piece[2]->Ident_0))
    } else {
        None
    }
}

/// The table that `piece` names, where `piece` reads `table_name = value`.
pub open spec fn table_name_of(piece: Seq<TokenView>) -> Option<Seq<char>> {
    match key_value(piece) {
        Some((key, value)) => if key == TABLE_NAME_KEY@ {
            Some(value)
        } else {
            None
        },
        None => None,
    }
}

/// The table that the first `table_name = value` among `pieces` names.
pub open spec fn table_name_among(pieces: Seq<Seq<TokenView>>) -> Option<Seq<char>>
    decreases pieces.len(),
{
    if pieces.len() == 0 {
        None
    } else {
        match table_name_of(pieces[0]) {
            Some(table) => Some(table),
            None => table_name_among(pieces.skip(1)),
        }
    }
}

/// One argument of the form `key = value`.
#[derive(Debug, PartialEq, Eq)]
pub struct AnnotationArgument {
    pub key: Ident,
    pub value: Ident,
}

impl DeepView for AnnotationArgument {
    type V = (Seq<char>, Seq<char>);

    open spec fn deep_view(&self) -> (Seq<char>, Seq<char>) {
        (self.key@, self.value@)
    }
}

impl AnnotationArgument {
    /// Reads `piece` as `key = value`. Anything else is no error here, only
    /// not such an argument.
    pub fn parse(piece: &[Token]) -> (parsed: Option<AnnotationArgument>)
        ensures
            match parsed {
                Some(argument) => key_value(piece.deep_view()) == Some(argument.deep_view())
                    && argument.key@.len() > 0 && argument.value@.len() > 0,
                None => key_value(piece.deep_view()) is None,
            },
    {
        if piece.len() != 3 || !piece[1].is_punct('=') {
            return None;
        }
        match (piece[0].as_ident(), piece[2].as_ident()) {
            (Some(key), Some(value)) => Some(
                AnnotationArgument { key: key.clone(), value: value.clone() },
            ),
            _ => None,
        }
    }
}

/// The argument `table_name = value`.
#[derive(Debug, PartialEq, Eq)]
pub struct TableNameParser {
    pub table_name: Ident,
}

impl TableNameParser {
    /// Reads `piece` as `table_name = value`.
    pub fn parse(piece: &[Token]) -> (parsed: Option<TableNameParser>)
        ensures
            match parsed {
                Some(found) => table_name_of(piece.deep_view()) == Some(found.table_name@)
                    && found.table_name@.len() > 0,
                None => table_name_of(piece.deep_view()) is None,
            },
    {
        match AnnotationArgument::parse(piece) {
            Some(argument) => if argument.key.is_word(TABLE_NAME_KEY) {
                Some(TableNameParser { table_name: argument.value })
            } else {
                None
            },
            None => None,
        }
    }

    /// Looks through `arguments` for the first `table_name = value`. The
    /// arguments that read otherwise are passed over.
    pub fn find(arguments: &CommaSeparatedArguments) -> (found: Option<TableNameParser>)
        ensures
            match found {
                Some(found) => table_name_among(arguments.deep_view()) == Some(
                    found.table_name@,
                ) && found.table_name@.len() > 0,
                None => table_name_among(arguments.deep_view()) is None,
            },
    {
        let pieces = arguments.args();
        let ghost all = arguments.deep_view();
        let mut i: usize = 0;
        assert(all.skip(0) =~= all);
        while i < pieces.len()
            invariant
                i <= pieces.len(),
                all == pieces.deep_view(),
                all == arguments.deep_view(),
                table_name_among(all) == table_name_among(all.skip(i as int)),
            decreases pieces.len() - i,
        {
            assert(all.skip(i as int)[0] == pieces[i as int].deep_view());
            assert(all.skip(i as int).skip(1) =~= all.skip(i + 1));
            let piece = pieces[i].as_slice();
            assert(piece.deep_view() =~= pieces[i as int].deep_view());
            match TableNameParser::parse(piece) {
                Some(found) => {
                    return Some(found);
                },
                None => {},
            }
            i += 1;
        }
        assert(all.skip(i as int).len() == 0);
        None
    }
}

} // verus!
