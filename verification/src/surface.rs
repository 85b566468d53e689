//! The textual surface syntax: a whitespace-separated token stream parsed into
//! an abstract syntax tree.
//!
//! Grammar, with identifiers made of ASCII letters:
//!
//! ```text
//! Term       -> Function | PiType | Var | Ann | ( Term )
//! Function   -> fn ParamsList => Term
//! PiType     -> { ident : Term } -> Term
//! Var        -> ident
//! Ann        -> Term : Term
//! ParamsList -> ident : Term , ParamsList | ident , ParamsList | ident : Term | ident
//! ```

use vstd::prelude::*;

verus! {

/// A node of the surface syntax tree.
#[derive(Debug)]
pub enum Ast {
    Function(Box<Ast>, Box<Ast>),
    PiType(Box<Ast>, Box<Ast>, Box<Ast>),
    Var(Box<Ast>),
    Ann(Box<Ast>, Box<Ast>),
    ParamsList(Box<Ast>, Option<Box<Ast>>, Option<Box<Ast>>),
    Id(String),
    Dummy,
}

/// An `Ast` with its identifiers taken as character sequences.
pub enum AstView {
    Function(Box<AstView>, Box<AstView>),
    PiType(Box<AstView>, Box<AstView>, Box<AstView>),
    Var(Box<AstView>),
    Ann(Box<AstView>, Box<AstView>),
    ParamsList(Box<AstView>, Option<Box<AstView>>, Option<Box<AstView>>),
    Id(Seq<char>),
    Dummy,
}

/// The view of an `Ast`.
pub open spec fn ast_view(a: Ast) -> AstView
    decreases a,
{
    match a {
        Ast::Function(p, b) => AstView::Function(Box::new(ast_view(*p)), Box::new(ast_view(*b))),
        Ast::PiType(x, t, u) => AstView::PiType(Box::new(ast_view(*x)), Box::new(ast_view(*t)), Box::new(ast_view(*u))),
        Ast::Var(x) => AstView::Var(Box::new(ast_view(*x))),
        Ast::Ann(t, u) => AstView::Ann(Box::new(ast_view(*t)), Box::new(ast_view(*u))),
        Ast::ParamsList(x, t, r) => AstView::ParamsList(
            Box::new(ast_view(*x)),
            match t { Some(t) => Some(Box::new(ast_view(*t))), None => None },
            match r { Some(r) => Some(Box::new(ast_view(*r))), None => None },
        ),
        Ast::Id(s) => AstView::Id(s@),
        Ast::Dummy => AstView::Dummy,
    }
}

impl View for Ast {
    type V = AstView;

    open spec fn view(&self) -> AstView {
        ast_view(*self)
    }
}

impl Clone for Ast {
    fn clone(&self) -> (res: Self)
        ensures
            res@ == self@,
        decreases self,
    {
        match self {
            Ast::Function(p, b) => Ast::Function(Box::new((**p).clone()), Box::new((**b).clone())),
            Ast::PiType(x, t, u) => Ast::PiType(Box::new((**x).clone()), Box::new((**t).clone()), Box::new((**u).clone())),
            Ast::Var(x) => Ast::Var(Box::new((**x).clone())),
            Ast::Ann(t, u) => Ast::Ann(Box::new((**t).clone()), Box::new((**u).clone())),
            Ast::ParamsList(x, t, r) => {
                let t2 = match t {
                    Some(t) => Some(Box::new((**t).clone())),
                    None => None,
                };
                let r2 = match r {
                    Some(r) => Some(Box::new((**r).clone())),
                    None => None,
                };
                Ast::ParamsList(Box::new((**x).clone()), t2, r2)
            },
            Ast::Id(name) => Ast::Id(name.clone()),
            Ast::Dummy => Ast::Dummy,
        }
    }
}

impl Ast {
    /// The parameters and body of a function node.
    pub fn to_function(self) -> (res: (Box<Ast>, Box<Ast>))
        requires
            self is Function,
        ensures
            self == Ast::Function(res.0, res.1),
    {
        match self {
            Ast::Function(ast1, ast2) => (ast1, ast2),
            _ => (Box::new(Ast::Dummy), Box::new(Ast::Dummy)),
        }
    }

    /// The bound name, domain and codomain of a dependent function type node.
    pub fn to_pitype(self) -> (res: (Box<Ast>, Box<Ast>, Box<Ast>))
        requires
            self is PiType,
        ensures
            self == Ast::PiType(res.0, res.1, res.2),
    {
        match self {
            Ast::PiType(ast1, ast2, ast3) => (ast1, ast2, ast3),
            _ => (Box::new(Ast::Dummy), Box::new(Ast::Dummy), Box::new(Ast::Dummy)),
        }
    }

    /// The name of a variable node.
    pub fn to_var(self) -> (res: Box<Ast>)
        requires
            self is Var,
        ensures
            self == Ast::Var(res),
    {
        match self {
            Ast::Var(ast) => ast,
            _ => Box::new(Ast::Dummy),
        }
    }

    /// The term and type of an annotation node.
    pub fn to_ann(self) -> (res: (Box<Ast>, Box<Ast>))
        requires
            self is Ann,
        ensures
            self == Ast::Ann(res.0, res.1),
    {
        match self {
            Ast::Ann(ast1, ast2) => (ast1, ast2),
            _ => (Box::new(Ast::Dummy), Box::new(Ast::Dummy)),
        }
    }

    /// The name, optional type and optional rest of a parameter list node.
    pub fn to_paramslist(self) -> (res: (Box<Ast>, Option<Box<Ast>>, Option<Box<Ast>>))
        requires
            self is ParamsList,
        ensures
            self == Ast::ParamsList(res.0, res.1, res.2),
    {
        match self {
            Ast::ParamsList(ast1, ast2, ast3) => (ast1, ast2, ast3),
            _ => (Box::new(Ast::Dummy), None, None),
        }
    }

    /// The text of an identifier node.
    pub fn to_id(self) -> (res: String)
        requires
            self is Id,
        ensures
            self == Ast::Id(res),
    {
        match self {
            Ast::Id(name) => name,
            _ => String::new(),
        }
    }

    /// Consumes a placeholder node.
    pub fn to_dummy(self)
        requires
            self is Dummy,
    {
        match self {
            Ast::Dummy => (),
            _ => (),
        }
    }
}

/// Unicode `White_Space`: what `str::split_whitespace` splits on.
pub open spec fn is_white_space(c: char) -> bool {
    let n = c as int;
    ||| 0x9 <= n <= 0xd
    ||| n == 0x20
    ||| n == 0x85
    ||| n == 0xa0
    ||| n == 0x1680
    ||| 0x2000 <= n <= 0x200a
    ||| n == 0x2028
    ||| n == 0x2029
    ||| n == 0x202f
    ||| n == 0x205f
    ||| n == 0x3000
}

/// The maximal runs of non-whitespace characters of `s`, in order.
pub open spec fn ws_tokens(s: Seq<char>) -> Seq<Seq<char>>
    decreases s.len(),
{
    if s.len() == 0 {
        Seq::empty()
    } else {
        let c = s.last();
        let rest = s.drop_last();
        let before = ws_tokens(rest);
        if is_white_space(c) {
            before
        } else if rest.len() > 0 && !is_white_space(rest.last()) {
            before.update(before.len() - 1, before.last().push(c))
        } else {
            before.push(seq![c])
        }
    }
}

/// The character sequences of a list of strings.
pub open spec fn views_of(toks: Seq<String>) -> Seq<Seq<char>> {
    toks.map_values(|t: String| t@)
}

/// Calls `str::split_whitespace`: the pieces of `text` between runs of
/// Unicode whitespace, in order, none of them empty.
#[verifier::external_body]
fn split_whitespace(text: &str) -> (res: Vec<String>)
    ensures
        views_of(res@) == ws_tokens(text@),
{
    text.split_whitespace().map(|t| t.to_string()).collect()
}

/// An ASCII letter.
pub open spec fn is_ascii_letter(c: char) -> bool {
    (65 <= c as int <= 90) || (97 <= c as int <= 122)
}

/// An identifier: one or more ASCII letters.
pub open spec fn is_ident(t: Seq<char>) -> bool {
    t.len() > 0 && forall|i: int| 0 <= i < t.len() ==> is_ascii_letter(#[trigger] t[i])
}

/// Calls `regex::Regex::is_match` with the pattern `^[[:alpha:]]+$`, whose
/// class `[:alpha:]` is the ASCII letters: whether `token` is one or more
/// ASCII letters and nothing else.
#[verifier::external_body]
fn is_identifier(token: &str) -> (res: bool)
    ensures
        res == is_ident(token@),
{
    regex::Regex::new("^[[:alpha:]]+$").unwrap().is_match(token)
}

/// The fixed tokens of the grammar.
#[derive(PartialEq, Eq, Structural, Clone, Copy, Debug)]
pub enum TokenKind {
    Fn,
    FatArrow,
    LBrace,
    RBrace,
    Arrow,
    Colon,
    Comma,
    LParen,
    RParen,
    Other,
}

/// Which fixed token `t` is, if any.
pub open spec fn kind_of(t: Seq<char>) -> TokenKind {
    if t == seq!['f', 'n'] {
        TokenKind::Fn
    } else if t == seq!['=', '>'] {
        TokenKind::FatArrow
    } else if t == seq!['{'] {
        TokenKind::LBrace
    } else if t == seq!['}'] {
        TokenKind::RBrace
    } else if t == seq!['-', '>'] {
        TokenKind::Arrow
    } else if t == seq![':'] {
        TokenKind::Colon
    } else if t == seq![','] {
        TokenKind::Comma
    } else if t == seq!['('] {
        TokenKind::LParen
    } else if t == seq![')'] {
        TokenKind::RParen
    } else {
        TokenKind::Other
    }
}

fn token_kind(tok: &String) -> (res: TokenKind)
    ensures
        res == kind_of(tok@),
{
    proof {
        reveal_strlit("fn");
        reveal_strlit("=>");
        reveal_strlit("{");
        reveal_strlit("}");
        reveal_strlit("->");
        reveal_strlit(":");
        reveal_strlit(",");
        reveal_strlit("(");
        reveal_strlit(")");
        assert(seq!['f', 'n'] =~= "fn"@);
        assert(seq!['=', '>'] =~= "=>"@);
        assert(seq!['{'] =~= "{"@);
        assert(seq!['}'] =~= "}"@);
        assert(seq!['-', '>'] =~= "->"@);
        assert(seq![':'] =~= ":"@);
        assert(seq![','] =~= ","@);
        assert(seq!['('] =~= "("@);
        assert(seq![')'] =~= ")"@);
    }
    if *tok == "fn".to_owned() {
        TokenKind::Fn
    } else if *tok == "=>".to_owned() {
        TokenKind::FatArrow
    } else if *tok == "{".to_owned() {
        TokenKind::LBrace
    } else if *tok == "}".to_owned() {
        TokenKind::RBrace
    } else if *tok == "->".to_owned() {
        TokenKind::Arrow
    } else if *tok == ":".to_owned() {
        TokenKind::Colon
    } else if *tok == ",".to_owned() {
        TokenKind::Comma
    } else if *tok == "(".to_owned() {
        TokenKind::LParen
    } else if *tok == ")".to_owned() {
        TokenKind::RParen
    } else {
        TokenKind::Other
    }
}

/// The tokens `t[i..j]` derive a `Term` whose tree is `a`: a parenthesized
/// term stands for the term inside.
pub open spec fn derives_term(t: Seq<Seq<char>>, i: int, j: int, a: AstView) -> bool
    decreases j - i, 1int,
{
    &&& 0 <= i < j <= t.len()
    &&& {
        ||| (j - i >= 3 && kind_of(t[i]) == TokenKind::LParen && kind_of(t[j - 1]) == TokenKind::RParen
            && derives_term(t, i + 1, j - 1, a))
        ||| match a {
            AstView::Var(x) => j - i == 1 && is_ident(t[i]) && *x == AstView::Id(t[i]),
            AstView::Ann(l, r) => exists|k: int| i + 1 <= k <= j - 2 && kind_of(#[trigger] t[k]) == TokenKind::Colon
                && derives_term(t, i, k, *l) && derives_term(t, k + 1, j, *r),
            AstView::Function(p, b) => j - i >= 4 && kind_of(t[i]) == TokenKind::Fn
                && exists|k: int| i + 2 <= k <= j - 2 && kind_of(#[trigger] t[k]) == TokenKind::FatArrow
                    && derives_params(t, i + 1, k, *p) && derives_term(t, k + 1, j, *b),
            AstView::PiType(x, ty, body) => j - i >= 7 && kind_of(t[i]) == TokenKind::LBrace && is_ident(t[i + 1])
                && *x == AstView::Id(t[i + 1]) && kind_of(t[i + 2]) == TokenKind::Colon
                && exists|k: int| i + 4 <= k <= j - 3 && kind_of(#[trigger] t[k]) == TokenKind::RBrace
                    && kind_of(t[k + 1]) == TokenKind::Arrow
                    && derives_term(t, i + 3, k, *ty) && derives_term(t, k + 2, j, *body),
            _ => false,
        }
    }
}

/// The tokens `t[i..j]` derive a `ParamsList` whose tree is `a`.
pub open spec fn derives_params(t: Seq<Seq<char>>, i: int, j: int, a: AstView) -> bool
    decreases j - i, 0int,
{
    &&& 0 <= i < j <= t.len()
    &&& match a {
        AstView::ParamsList(x, ty, rest) => is_ident(t[i]) && *x == AstView::Id(t[i]) && match (ty, rest) {
            (None, None) => j - i == 1,
            (None, Some(r)) => j - i >= 3 && kind_of(t[i + 1]) == TokenKind::Comma && derives_params(t, i + 2, j, *r),
            (Some(ty), None) => j - i >= 3 && kind_of(t[i + 1]) == TokenKind::Colon && derives_term(t, i + 2, j, *ty),
            (Some(ty), Some(r)) => j - i >= 5 && kind_of(t[i + 1]) == TokenKind::Colon
                && exists|k: int| i + 3 <= k <= j - 2 && kind_of(#[trigger] t[k]) == TokenKind::Comma
                    && derives_term(t, i + 2, k, *ty) && derives_params(t, k + 1, j, *r),
        },
        _ => false,
    }
}

/// Some `Term` tree is derived by `t[i..j]`.
pub open spec fn term_derivable(t: Seq<Seq<char>>, i: int, j: int) -> bool {
    exists|a: AstView| derives_term(t, i, j, a)
}

/// Some `ParamsList` tree is derived by `t[i..j]`.
pub open spec fn params_derivable(t: Seq<Seq<char>>, i: int, j: int) -> bool {
    exists|a: AstView| derives_params(t, i, j, a)
}

/// A table entry for `t[i..i+l]`: a tree derived there, or nothing when none is.
pub open spec fn term_cell_ok(t: Seq<Seq<char>>, i: int, l: int, c: Option<Ast>) -> bool {
    &&& opt_view(c) == term_tree(t, i, l)
    &&& match c {
        Some(a) => derives_term(t, i, i + l, a@),
        None => !term_derivable(t, i, i + l),
    }
}

pub open spec fn params_cell_ok(t: Seq<Seq<char>>, i: int, l: int, c: Option<Ast>) -> bool {
    &&& opt_view(c) == params_tree(t, i, l)
    &&& match c {
        Some(a) => derives_params(t, i, i + l, a@),
        None => !params_derivable(t, i, i + l),
    }
}

/// Rows `1..rows.len()` of the tables hold, for each length `l` and start `i`,
/// the entries for `t[i..i+l]`.
pub open spec fn tables_ok(t: Seq<Seq<char>>, trows: Seq<Vec<Option<Ast>>>, prows: Seq<Vec<Option<Ast>>>) -> bool {
    &&& trows.len() == prows.len()
    &&& 1 <= trows.len() <= t.len() + 1
    &&& forall|l: int| 1 <= l < trows.len() ==> #[trigger] trows[l]@.len() == t.len() - l + 1
    &&& forall|l: int| 1 <= l < prows.len() ==> #[trigger] prows[l]@.len() == t.len() - l + 1
    &&& forall|l: int, i: int| 1 <= l < trows.len() && 0 <= i <= t.len() - l ==> term_cell_ok(t, i, l, #[trigger] trows[l]@[i])
    &&& forall|l: int, i: int| 1 <= l < prows.len() && 0 <= i <= t.len() - l ==> params_cell_ok(t, i, l, #[trigger] prows[l]@[i])
}

/// The tokens as the parser sees them.
pub open spec fn token_info_ok(t: Seq<Seq<char>>, toks: Seq<String>, kinds: Seq<TokenKind>, ids: Seq<bool>) -> bool {
    &&& t == views_of(toks)
    &&& kinds.len() == t.len()
    &&& ids.len() == t.len()
    &&& forall|k: int| 0 <= k < t.len() ==> #[trigger] kinds[k] == kind_of(t[k])
    &&& forall|k: int| 0 <= k < t.len() ==> #[trigger] ids[k] == is_ident(t[k])
}

/// The inputs every table-filling step works on.
pub open spec fn cell_inputs_ok(t: Seq<Seq<char>>, toks: Seq<String>, kinds: Seq<TokenKind>, ids: Seq<bool>,
    trows: Seq<Vec<Option<Ast>>>, prows: Seq<Vec<Option<Ast>>>, i: int, l: int) -> bool {
    &&& token_info_ok(t, toks, kinds, ids)
    &&& tables_ok(t, trows, prows)
    &&& trows.len() == l
    &&& 1 <= l
    &&& 0 <= i
    &&& i + l <= t.len()
}

proof fn lemma_tok_views(t: Seq<Seq<char>>, toks: Seq<String>)
    requires
        t == views_of(toks),
    ensures
        t.len() == toks.len(),
        forall|k: int| 0 <= k < t.len() ==> #[trigger] toks[k]@ == t[k],
{
    assert forall|k: int| 0 <= k < t.len() implies #[trigger] toks[k]@ == t[k] by {
        assert(t[k] == views_of(toks)[k]);
    }
}

fn name_at(toks: &Vec<String>, i: usize, Ghost(t): Ghost<Seq<Seq<char>>>) -> (res: Ast)
    requires
        t == views_of(toks@),
        i < t.len(),
    ensures
        res@ == AstView::Id(t[i as int]),
{
    proof { lemma_tok_views(t, toks@); }
    Ast::Id(toks[i].clone())
}

/// `t[i..j]` splits at the colon `k` into two derivable terms.
pub open spec fn ann_split(t: Seq<Seq<char>>, i: int, j: int, k: int) -> bool {
    kind_of(t[k]) == TokenKind::Colon && term_derivable(t, i, k) && term_derivable(t, k + 1, j)
}

/// `t[i..j]` is `fn`, parameters ending before the `=>` at `k`, and a term.
pub open spec fn fn_split(t: Seq<Seq<char>>, i: int, j: int, k: int) -> bool {
    kind_of(t[k]) == TokenKind::FatArrow && params_derivable(t, i + 1, k) && term_derivable(t, k + 1, j)
}

/// `t[i..j]` is `{ x :`, a term, the `}` at `k`, `->`, and a term.
pub open spec fn pi_split(t: Seq<Seq<char>>, i: int, j: int, k: int) -> bool {
    kind_of(t[k]) == TokenKind::RBrace && kind_of(t[k + 1]) == TokenKind::Arrow
        && term_derivable(t, i + 3, k) && term_derivable(t, k + 2, j)
}

/// `t[i..j]` is a name, `:`, a term ending before the comma at `k`, and parameters.
pub open spec fn params_split(t: Seq<Seq<char>>, i: int, j: int, k: int) -> bool {
    kind_of(t[k]) == TokenKind::Comma && term_derivable(t, i + 2, k) && params_derivable(t, k + 1, j)
}

/// An optional tree, taken by its view.
pub open spec fn opt_view(c: Option<Ast>) -> Option<AstView> {
    match c {
        Some(a) => Some(a@),
        None => None,
    }
}

/// The `Term` tree the parser gives for `t[i..i+l]`, or `None` when it has
/// none. Where several trees are derivable, the rules are tried in the order
/// name, parentheses, annotation, function, dependent function type, and a
/// rule that splits the tokens takes its leftmost split.
pub open spec fn term_tree(t: Seq<Seq<char>>, i: int, l: int) -> Option<AstView>
    decreases l, 2int, 0int,
{
    if !(0 <= i && 1 <= l && i + l <= t.len()) {
        None
    } else if l == 1 && is_ident(t[i]) {
        Some(AstView::Var(Box::new(AstView::Id(t[i]))))
    } else if l >= 3 && kind_of(t[i]) == TokenKind::LParen && kind_of(t[i + l - 1]) == TokenKind::RParen
        && term_tree(t, i + 1, l - 2) is Some {
        term_tree(t, i + 1, l - 2)
    } else if ann_tree_from(t, i, i + l, i + 1) is Some {
        ann_tree_from(t, i, i + l, i + 1)
    } else if l >= 4 && kind_of(t[i]) == TokenKind::Fn && fn_tree_from(t, i, i + l, i + 2) is Some {
        fn_tree_from(t, i, i + l, i + 2)
    } else if l >= 7 && kind_of(t[i]) == TokenKind::LBrace && is_ident(t[i + 1])
        && kind_of(t[i + 2]) == TokenKind::Colon {
        pi_tree_from(t, i, i + l, i + 4)
    } else {
        None
    }
}

/// The annotation `t[i..k'] : t[k'+1..j]` at the first colon `k' >= k` at
/// which both sides have trees.
pub open spec fn ann_tree_from(t: Seq<Seq<char>>, i: int, j: int, k: int) -> Option<AstView>
    decreases j - i, 1int, j - k,
{
    if !(i + 1 <= k && k <= j - 2) {
        None
    } else if kind_of(t[k]) == TokenKind::Colon && term_tree(t, i, k - i) is Some
        && term_tree(t, k + 1, j - k - 1) is Some {
        Some(AstView::Ann(Box::new(term_tree(t, i, k - i).unwrap()), Box::new(term_tree(t, k + 1, j - k - 1).unwrap())))
    } else {
        ann_tree_from(t, i, j, k + 1)
    }
}

/// The function `fn t[i+1..k'] => t[k'+1..j]` at the first `=>` at `k' >= k`
/// at which both sides have trees.
pub open spec fn fn_tree_from(t: Seq<Seq<char>>, i: int, j: int, k: int) -> Option<AstView>
    decreases j - i, 1int, j - k,
{
    if !(i + 2 <= k && k <= j - 2) {
        None
    } else if kind_of(t[k]) == TokenKind::FatArrow && params_tree(t, i + 1, k - i - 1) is Some
        && term_tree(t, k + 1, j - k - 1) is Some {
        Some(AstView::Function(Box::new(params_tree(t, i + 1, k - i - 1).unwrap()),
            Box::new(term_tree(t, k + 1, j - k - 1).unwrap())))
    } else {
        fn_tree_from(t, i, j, k + 1)
    }
}

/// The type `{ x : t[i+3..k'] } -> t[k'+2..j]` at the first `}` `->` at
/// `k' >= k` at which both sides have trees.
pub open spec fn pi_tree_from(t: Seq<Seq<char>>, i: int, j: int, k: int) -> Option<AstView>
    decreases j - i, 1int, j - k,
{
    if !(i + 4 <= k && k <= j - 3) {
        None
    } else if kind_of(t[k]) == TokenKind::RBrace && kind_of(t[k + 1]) == TokenKind::Arrow
        && term_tree(t, i + 3, k - i - 3) is Some && term_tree(t, k + 2, j - k - 2) is Some {
        Some(AstView::PiType(Box::new(AstView::Id(t[i + 1])), Box::new(term_tree(t, i + 3, k - i - 3).unwrap()),
            Box::new(term_tree(t, k + 2, j - k - 2).unwrap())))
    } else {
        pi_tree_from(t, i, j, k + 1)
    }
}

/// The `ParamsList` tree the parser gives for `t[i..i+l]`, or `None`, with
/// the rules tried in the order name, `name , rest`, `name : type`,
/// `name : type , rest` (at the leftmost comma).
pub open spec fn params_tree(t: Seq<Seq<char>>, i: int, l: int) -> Option<AstView>
    decreases l, 2int, 0int,
{
    if !(0 <= i && 1 <= l && i + l <= t.len()) || !is_ident(t[i]) {
        None
    } else if l == 1 {
        Some(AstView::ParamsList(Box::new(AstView::Id(t[i])), None, None))
    } else if l >= 3 && kind_of(t[i + 1]) == TokenKind::Comma && params_tree(t, i + 2, l - 2) is Some {
        Some(AstView::ParamsList(Box::new(AstView::Id(t[i])), None, Some(Box::new(params_tree(t, i + 2, l - 2).unwrap()))))
    } else if l >= 3 && kind_of(t[i + 1]) == TokenKind::Colon && term_tree(t, i + 2, l - 2) is Some {
        Some(AstView::ParamsList(Box::new(AstView::Id(t[i])), Some(Box::new(term_tree(t, i + 2, l - 2).unwrap())), None))
    } else if l >= 5 && kind_of(t[i + 1]) == TokenKind::Colon {
        params_tree_from(t, i, i + l, i + 3)
    } else {
        None
    }
}

/// `t[i] : t[i+2..k'] , t[k'+1..j]` at the first comma at `k' >= k` at which
/// both sides have trees.
pub open spec fn params_tree_from(t: Seq<Seq<char>>, i: int, j: int, k: int) -> Option<AstView>
    decreases j - i, 1int, j - k,
{
    if !(i + 3 <= k && k <= j - 2) {
        None
    } else if kind_of(t[k]) == TokenKind::Comma && term_tree(t, i + 2, k - i - 2) is Some
        && params_tree(t, k + 1, j - k - 1) is Some {
        Some(AstView::ParamsList(Box::new(AstView::Id(t[i])), Some(Box::new(term_tree(t, i + 2, k - i - 2).unwrap())),
            Some(Box::new(params_tree(t, k + 1, j - k - 1).unwrap()))))
    } else {
        params_tree_from(t, i, j, k + 1)
    }
}

/// The tree the parser gives for the token sequence `t`.
pub open spec fn parse_tree(t: Seq<Seq<char>>) -> Option<AstView> {
    term_tree(t, 0, t.len() as int)
}

/// Only the whitespace-separated tokens of a text decide how it parses: two
/// texts with the same tokens get the same tree from `parse_text`, or both
/// fail.
pub proof fn lemma_parse_depends_on_tokens_only(s1: Seq<char>, s2: Seq<char>)
    requires
        ws_tokens(s1) == ws_tokens(s2),
    ensures
        parse_tree(ws_tokens(s1)) == parse_tree(ws_tokens(s2)),
{
}

fn try_ann(toks: &Vec<String>, kinds: &Vec<TokenKind>, ids: &Vec<bool>, trows: &Vec<Vec<Option<Ast>>>,
    prows: &Vec<Vec<Option<Ast>>>, i: usize, l: usize, Ghost(t): Ghost<Seq<Seq<char>>>) -> (res: Option<Ast>)
    requires
        cell_inputs_ok(t, toks@, kinds@, ids@, trows@, prows@, i as int, l as int),
    ensures
        res matches Some(a) ==> derives_term(t, i as int, i + l, a@),
        res is None ==> forall|k: int| i + 1 <= k <= i + l - 2 ==> !#[trigger] ann_split(t, i as int, i + l, k),
        opt_view(res) == ann_tree_from(t, i as int, i + l, i + 1),
{
    let n = toks.len();
    proof { lemma_tok_views(t, toks@); }
    let j = i + l;
    let mut k = i + 1;
    while k < j - 1
        invariant
            cell_inputs_ok(t, toks@, kinds@, ids@, trows@, prows@, i as int, l as int),
            j == i + l,
            i + 1 <= k <= j,
            forall|k2: int| i + 1 <= k2 < k ==> !#[trigger] ann_split(t, i as int, j as int, k2),
            ann_tree_from(t, i as int, j as int, i + 1) == ann_tree_from(t, i as int, j as int, k as int),
        decreases j - k,
    {
        assert(term_cell_ok(t, i as int, (k - i) as int, trows@[k - i]@[i as int]));
        assert(term_cell_ok(t, k + 1, (j - k - 1) as int, trows@[j - k - 1]@[k + 1]));
        if kinds[k] == TokenKind::Colon {
            match (&trows[k - i][i], &trows[j - k - 1][k + 1]) {
                (Some(a), Some(b)) => {
                    let r = Ast::Ann(Box::new(a.clone()), Box::new(b.clone()));
                    assert(kind_of(t[k as int]) == TokenKind::Colon);
                    assert(derives_term(t, i as int, j as int, r@));
                    return Some(r);
                },
                _ => {},
            }
        }
        k = k + 1;
    }
    None
}

fn try_fn(toks: &Vec<String>, kinds: &Vec<TokenKind>, ids: &Vec<bool>, trows: &Vec<Vec<Option<Ast>>>,
    prows: &Vec<Vec<Option<Ast>>>, i: usize, l: usize, Ghost(t): Ghost<Seq<Seq<char>>>) -> (res: Option<Ast>)
    requires
        cell_inputs_ok(t, toks@, kinds@, ids@, trows@, prows@, i as int, l as int),
        l >= 4,
        kind_of(t[i as int]) == TokenKind::Fn,
    ensures
        res matches Some(a) ==> derives_term(t, i as int, i + l, a@),
        res is None ==> forall|k: int| i + 2 <= k <= i + l - 2 ==> !#[trigger] fn_split(t, i as int, i + l, k),
        opt_view(res) == fn_tree_from(t, i as int, i + l, i + 2),
{
    let n = toks.len();
    proof { lemma_tok_views(t, toks@); }
    let j = i + l;
    let mut k = i + 2;
    while k <= j - 2
        invariant
            cell_inputs_ok(t, toks@, kinds@, ids@, trows@, prows@, i as int, l as int),
            l >= 4,
            kind_of(t[i as int]) == TokenKind::Fn,
            j == i + l,
            i + 2 <= k <= j,
            forall|k2: int| i + 2 <= k2 < k ==> !#[trigger] fn_split(t, i as int, j as int, k2),
            fn_tree_from(t, i as int, j as int, i + 2) == fn_tree_from(t, i as int, j as int, k as int),
        decreases j - k,
    {
        assert(params_cell_ok(t, i + 1, (k - i - 1) as int, prows@[k - i - 1]@[i + 1]));
        assert(term_cell_ok(t, k + 1, (j - k - 1) as int, trows@[j - k - 1]@[k + 1]));
        if kinds[k] == TokenKind::FatArrow {
            match (&prows[k - i - 1][i + 1], &trows[j - k - 1][k + 1]) {
                (Some(p), Some(b)) => {
                    let r = Ast::Function(Box::new(p.clone()), Box::new(b.clone()));
                    assert(kind_of(t[k as int]) == TokenKind::FatArrow);
                    assert(derives_term(t, i as int, j as int, r@));
                    return Some(r);
                },
                _ => {},
            }
        }
        k = k + 1;
    }
    None
}

proof fn lemma_pi_derives(t: Seq<Seq<char>>, i: int, j: int, k: int, x: AstView, ty: AstView, u: AstView)
    requires
        0 <= i,
        j <= t.len(),
        j - i >= 7,
        i + 4 <= k <= j - 3,
        kind_of(t[i]) == TokenKind::LBrace,
        is_ident(t[i + 1]),
        x == AstView::Id(t[i + 1]),
        kind_of(t[i + 2]) == TokenKind::Colon,
        kind_of(t[k]) == TokenKind::RBrace,
        kind_of(t[k + 1]) == TokenKind::Arrow,
        derives_term(t, i + 3, k, ty),
        derives_term(t, k + 2, j, u),
    ensures
        derives_term(t, i, j, AstView::PiType(Box::new(x), Box::new(ty), Box::new(u))),
{
}

#[verifier::spinoff_prover]
#[verifier::rlimit(40)]
proof fn lemma_term_not_derivable(t: Seq<Seq<char>>, i: int, j: int)
    requires
        0 <= i < j <= t.len(),
        !(j - i == 1 && is_ident(t[i])),
        !(j - i >= 3 && kind_of(t[i]) == TokenKind::LParen && kind_of(t[j - 1]) == TokenKind::RParen)
            || !term_derivable(t, i + 1, j - 1),
        forall|k: int| i + 1 <= k <= j - 2 ==> !#[trigger] ann_split(t, i, j, k),
        !(j - i >= 4 && kind_of(t[i]) == TokenKind::Fn)
            || forall|k: int| i + 2 <= k <= j - 2 ==> !#[trigger] fn_split(t, i, j, k),
        !(j - i >= 7 && kind_of(t[i]) == TokenKind::LBrace && is_ident(t[i + 1]) && kind_of(t[i + 2]) == TokenKind::Colon)
            || forall|k: int| i + 4 <= k <= j - 3 ==> !#[trigger] pi_split(t, i, j, k),
    ensures
        !term_derivable(t, i, j),
{
    assert forall|a: AstView| !derives_term(t, i, j, a) by {
        if derives_term(t, i, j, a) {
            if j - i >= 3 && kind_of(t[i]) == TokenKind::LParen && kind_of(t[j - 1]) == TokenKind::RParen
                && derives_term(t, i + 1, j - 1, a) {
                assert(term_derivable(t, i + 1, j - 1));
            } else {
                match a {
                    AstView::Ann(lt, rt) => {
                        let k2 = choose|k2: int| i + 1 <= k2 <= j - 2 && kind_of(#[trigger] t[k2]) == TokenKind::Colon
                            && derives_term(t, i, k2, *lt) && derives_term(t, k2 + 1, j, *rt);
                        assert(term_derivable(t, i, k2));
                        assert(term_derivable(t, k2 + 1, j));
                        assert(ann_split(t, i, j, k2));
                    },
                    AstView::Function(p, b) => {
                        let k2 = choose|k2: int| i + 2 <= k2 <= j - 2 && kind_of(#[trigger] t[k2]) == TokenKind::FatArrow
                            && derives_params(t, i + 1, k2, *p) && derives_term(t, k2 + 1, j, *b);
                        assert(params_derivable(t, i + 1, k2));
                        assert(term_derivable(t, k2 + 1, j));
                        assert(fn_split(t, i, j, k2));
                    },
                    AstView::PiType(x, ty, body) => {
                        let k2 = choose|k2: int| i + 4 <= k2 <= j - 3 && kind_of(#[trigger] t[k2]) == TokenKind::RBrace
                            && kind_of(t[k2 + 1]) == TokenKind::Arrow
                            && derives_term(t, i + 3, k2, *ty) && derives_term(t, k2 + 2, j, *body);
                        assert(term_derivable(t, i + 3, k2));
                        assert(term_derivable(t, k2 + 2, j));
                        assert(pi_split(t, i, j, k2));
                    },
                    _ => {},
                }
            }
        }
    }
}

fn try_pi(toks: &Vec<String>, kinds: &Vec<TokenKind>, ids: &Vec<bool>, trows: &Vec<Vec<Option<Ast>>>,
    prows: &Vec<Vec<Option<Ast>>>, i: usize, l: usize, Ghost(t): Ghost<Seq<Seq<char>>>) -> (res: Option<Ast>)
    requires
        cell_inputs_ok(t, toks@, kinds@, ids@, trows@, prows@, i as int, l as int),
        l >= 7,
        kind_of(t[i as int]) == TokenKind::LBrace,
        is_ident(t[i + 1]),
        kind_of(t[i + 2]) == TokenKind::Colon,
    ensures
        res matches Some(a) ==> derives_term(t, i as int, i + l, a@),
        res is None ==> forall|k: int| i + 4 <= k <= i + l - 3 ==> !#[trigger] pi_split(t, i as int, i + l, k),
        opt_view(res) == pi_tree_from(t, i as int, i + l, i + 4),
{
    let n = toks.len();
    proof { lemma_tok_views(t, toks@); }
    let j = i + l;
    let mut k = i + 4;
    while k <= j - 3
        invariant
            cell_inputs_ok(t, toks@, kinds@, ids@, trows@, prows@, i as int, l as int),
            l >= 7,
            kind_of(t[i as int]) == TokenKind::LBrace,
            is_ident(t[i + 1]),
            kind_of(t[i + 2]) == TokenKind::Colon,
            j == i + l,
            i + 4 <= k <= j,
            forall|k2: int| i + 4 <= k2 < k ==> !#[trigger] pi_split(t, i as int, j as int, k2),
            pi_tree_from(t, i as int, j as int, i + 4) == pi_tree_from(t, i as int, j as int, k as int),
        decreases j - k,
    {
        assert(term_cell_ok(t, i + 3, (k - i - 3) as int, trows@[k - i - 3]@[i + 3]));
        assert(term_cell_ok(t, k + 2, (j - k - 2) as int, trows@[j - k - 2]@[k + 2]));
        if kinds[k] == TokenKind::RBrace && kinds[k + 1] == TokenKind::Arrow {
            match (&trows[k - i - 3][i + 3], &trows[j - k - 2][k + 2]) {
                (Some(ty), Some(u)) => {
                    let id = name_at(toks, i + 1, Ghost(t));
                    let r = Ast::PiType(Box::new(id), Box::new(ty.clone()), Box::new(u.clone()));
                    proof {
                        lemma_pi_derives(t, i as int, j as int, k as int, AstView::Id(t[i + 1]), ty@, u@);
                    }
                    return Some(r);
                },
                _ => {},
            }
        }
        k = k + 1;
    }
    None
}

fn term_cell(toks: &Vec<String>, kinds: &Vec<TokenKind>, ids: &Vec<bool>, trows: &Vec<Vec<Option<Ast>>>,
    prows: &Vec<Vec<Option<Ast>>>, i: usize, l: usize, Ghost(t): Ghost<Seq<Seq<char>>>) -> (res: Option<Ast>)
    requires
        cell_inputs_ok(t, toks@, kinds@, ids@, trows@, prows@, i as int, l as int),
    ensures
        term_cell_ok(t, i as int, l as int, res),
{
    let n = toks.len();
    proof { lemma_tok_views(t, toks@); }
    let j = i + l;
    if l == 1 && ids[i] {
        let id = name_at(toks, i, Ghost(t));
        let r = Ast::Var(Box::new(id));
        assert(derives_term(t, i as int, j as int, r@));
        return Some(r);
    }
    if l >= 3 && kinds[i] == TokenKind::LParen && kinds[j - 1] == TokenKind::RParen {
        assert(term_cell_ok(t, i + 1, l - 2, trows@[l - 2]@[i + 1]));
        match &trows[l - 2][i + 1] {
            Some(a) => {
                let r = a.clone();
                assert(derives_term(t, i as int, j as int, r@));
                return Some(r);
            },
            None => {},
        }
    }
    let ghost paren_ruled_out = !(l >= 3 && kind_of(t[i as int]) == TokenKind::LParen
        && kind_of(t[j - 1]) == TokenKind::RParen) || !term_derivable(t, i + 1, j - 1);
    assert(paren_ruled_out);
    match try_ann(toks, kinds, ids, trows, prows, i, l, Ghost(t)) {
        Some(r) => return Some(r),
        None => {},
    }
    let ghost fn_tried = l >= 4 && kind_of(t[i as int]) == TokenKind::Fn;
    if l >= 4 && kinds[i] == TokenKind::Fn {
        match try_fn(toks, kinds, ids, trows, prows, i, l, Ghost(t)) {
            Some(r) => return Some(r),
            None => {},
        }
    }
    let ghost fn_ruled_out = !fn_tried || forall|k: int| i + 2 <= k <= j - 2 ==> !#[trigger] fn_split(t, i as int, j as int, k);
    assert(fn_ruled_out);
    let ghost pi_tried = l >= 7 && kind_of(t[i as int]) == TokenKind::LBrace && is_ident(t[i + 1])
        && kind_of(t[i + 2]) == TokenKind::Colon;
    if l >= 7 && kinds[i] == TokenKind::LBrace && ids[i + 1] && kinds[i + 2] == TokenKind::Colon {
        match try_pi(toks, kinds, ids, trows, prows, i, l, Ghost(t)) {
            Some(r) => return Some(r),
            None => {},
        }
    }
    let ghost pi_ruled_out = !pi_tried || forall|k: int| i + 4 <= k <= j - 3 ==> !#[trigger] pi_split(t, i as int, j as int, k);
    assert(pi_ruled_out);
    proof { lemma_term_not_derivable(t, i as int, j as int); }
    None
}

fn try_params_typed_rest(toks: &Vec<String>, kinds: &Vec<TokenKind>, ids: &Vec<bool>, trows: &Vec<Vec<Option<Ast>>>,
    prows: &Vec<Vec<Option<Ast>>>, i: usize, l: usize, Ghost(t): Ghost<Seq<Seq<char>>>) -> (res: Option<Ast>)
    requires
        cell_inputs_ok(t, toks@, kinds@, ids@, trows@, prows@, i as int, l as int),
        l >= 5,
        is_ident(t[i as int]),
        kind_of(t[i + 1]) == TokenKind::Colon,
    ensures
        res matches Some(a) ==> derives_params(t, i as int, i + l, a@),
        res is None ==> forall|k: int| i + 3 <= k <= i + l - 2 ==> !#[trigger] params_split(t, i as int, i + l, k),
        opt_view(res) == params_tree_from(t, i as int, i + l, i + 3),
{
    let n = toks.len();
    proof { lemma_tok_views(t, toks@); }
    let j = i + l;
    let mut k = i + 3;
    while k <= j - 2
        invariant
            cell_inputs_ok(t, toks@, kinds@, ids@, trows@, prows@, i as int, l as int),
            l >= 5,
            is_ident(t[i as int]),
            kind_of(t[i + 1]) == TokenKind::Colon,
            j == i + l,
            i + 3 <= k <= j,
            forall|k2: int| i + 3 <= k2 < k ==> !#[trigger] params_split(t, i as int, j as int, k2),
            params_tree_from(t, i as int, j as int, i + 3) == params_tree_from(t, i as int, j as int, k as int),
        decreases j - k,
    {
        assert(term_cell_ok(t, i + 2, (k - i - 2) as int, trows@[k - i - 2]@[i + 2]));
        assert(params_cell_ok(t, k + 1, (j - k - 1) as int, prows@[j - k - 1]@[k + 1]));
        if kinds[k] == TokenKind::Comma {
            match (&trows[k - i - 2][i + 2], &prows[j - k - 1][k + 1]) {
                (Some(ty), Some(r)) => {
                    let id = name_at(toks, i, Ghost(t));
                    let res = Ast::ParamsList(Box::new(id), Some(Box::new(ty.clone())), Some(Box::new(r.clone())));
                    assert(kind_of(t[k as int]) == TokenKind::Comma);
                    assert(derives_params(t, i as int, j as int, res@));
                    return Some(res);
                },
                _ => {},
            }
        }
        k = k + 1;
    }
    None
}

fn params_cell(toks: &Vec<String>, kinds: &Vec<TokenKind>, ids: &Vec<bool>, trows: &Vec<Vec<Option<Ast>>>,
    prows: &Vec<Vec<Option<Ast>>>, i: usize, l: usize, Ghost(t): Ghost<Seq<Seq<char>>>) -> (res: Option<Ast>)
    requires
        cell_inputs_ok(t, toks@, kinds@, ids@, trows@, prows@, i as int, l as int),
    ensures
        params_cell_ok(t, i as int, l as int, res),
{
    let n = toks.len();
    proof { lemma_tok_views(t, toks@); }
    let j = i + l;
    if !ids[i] {
        assert forall|a: AstView| !derives_params(t, i as int, j as int, a) by {}
        return None;
    }
    if l == 1 {
        let id = name_at(toks, i, Ghost(t));
        let r = Ast::ParamsList(Box::new(id), None, None);
        assert(derives_params(t, i as int, j as int, r@));
        return Some(r);
    }
    if l >= 3 && kinds[i + 1] == TokenKind::Comma {
        assert(params_cell_ok(t, i + 2, l - 2, prows@[l - 2]@[i + 2]));
        match &prows[l - 2][i + 2] {
            Some(r) => {
                let id = name_at(toks, i, Ghost(t));
                let res = Ast::ParamsList(Box::new(id), None, Some(Box::new(r.clone())));
                assert(derives_params(t, i as int, j as int, res@));
                return Some(res);
            },
            None => {},
        }
    }
    let ghost comma_ruled_out = !(l >= 3 && kind_of(t[i + 1]) == TokenKind::Comma) || !params_derivable(t, i + 2, j as int);
    assert(comma_ruled_out);
    if l >= 3 && kinds[i + 1] == TokenKind::Colon {
        assert(term_cell_ok(t, i + 2, l - 2, trows@[l - 2]@[i + 2]));
        match &trows[l - 2][i + 2] {
            Some(ty) => {
                let id = name_at(toks, i, Ghost(t));
                let res = Ast::ParamsList(Box::new(id), Some(Box::new(ty.clone())), None);
                assert(derives_params(t, i as int, j as int, res@));
                return Some(res);
            },
            None => {},
        }
    }
    let ghost colon_ruled_out = !(l >= 3 && kind_of(t[i + 1]) == TokenKind::Colon) || !term_derivable(t, i + 2, j as int);
    assert(colon_ruled_out);
    let ghost rest_tried = l >= 5 && kind_of(t[i + 1]) == TokenKind::Colon;
    if l >= 5 && kinds[i + 1] == TokenKind::Colon {
        match try_params_typed_rest(toks, kinds, ids, trows, prows, i, l, Ghost(t)) {
            Some(r) => return Some(r),
            None => {},
        }
    }
    let ghost rest_ruled_out = !rest_tried || forall|k: int| i + 3 <= k <= j - 2 ==> !#[trigger] params_split(t, i as int, j as int, k);
    assert(rest_ruled_out);
    proof {
        assert forall|a: AstView| !derives_params(t, i as int, j as int, a) by {
            if derives_params(t, i as int, j as int, a) {
                match a {
                    AstView::ParamsList(x, ty, rest) => {
                        match (ty, rest) {
                            (None, None) => {},
                            (None, Some(r)) => {
                                assert(derives_params(t, i + 2, j as int, *r));
                                assert(params_derivable(t, i + 2, j as int));
                            },
                            (Some(ty), None) => {
                                assert(derives_term(t, i + 2, j as int, *ty));
                                assert(term_derivable(t, i + 2, j as int));
                            },
                            (Some(ty), Some(r)) => {
                                let k2 = choose|k2: int| i + 3 <= k2 <= j - 2 && kind_of(#[trigger] t[k2]) == TokenKind::Comma
                                    && derives_term(t, i + 2, k2, *ty) && derives_params(t, k2 + 1, j as int, *r);
                                assert(term_derivable(t, i + 2, k2));
                                assert(params_derivable(t, k2 + 1, j as int));
                                assert(params_split(t, i as int, j as int, k2));
                            },
                        }
                    },
                    _ => {},
                }
            }
        }
    }
    None
}

fn none_row(len: usize) -> (res: Vec<Option<Ast>>)
    ensures
        res@.len() == len,
{
    let mut row: Vec<Option<Ast>> = Vec::new();
    for _i in 0..len
        invariant
            row@.len() == _i,
    {
        row.push(None);
    }
    row
}

fn parse_tokens(toks: &Vec<String>, Ghost(t): Ghost<Seq<Seq<char>>>) -> (res: Option<Ast>)
    requires
        t == views_of(toks@),
    ensures
        match res {
            Some(a) => derives_term(t, 0, t.len() as int, a@),
            None => !term_derivable(t, 0, t.len() as int),
        },
        opt_view(res) == term_tree(t, 0, t.len() as int),
{
    let n = toks.len();
    proof { lemma_tok_views(t, toks@); }
    let mut kinds: Vec<TokenKind> = Vec::new();
    let mut ids: Vec<bool> = Vec::new();
    for k in 0..n
        invariant
            n == t.len(),
            n == toks@.len(),
            forall|k: int| 0 <= k < t.len() ==> #[trigger] toks@[k]@ == t[k],
            kinds@.len() == k,
            ids@.len() == k,
            forall|k2: int| 0 <= k2 < k ==> #[trigger] kinds@[k2] == kind_of(t[k2]),
            forall|k2: int| 0 <= k2 < k ==> #[trigger] ids@[k2] == is_ident(t[k2]),
    {
        kinds.push(token_kind(&toks[k]));
        ids.push(is_identifier(toks[k].as_str()));
    }
    if n == 0 {
        assert forall|a: AstView| !derives_term(t, 0, 0, a) by {}
        return None;
    }
    let mut trows: Vec<Vec<Option<Ast>>> = Vec::new();
    let mut prows: Vec<Vec<Option<Ast>>> = Vec::new();
    let mut row0 = none_row(n);
    row0.push(None);
    let mut prow0 = none_row(n);
    prow0.push(None);
    trows.push(row0);
    prows.push(prow0);
    let mut l: usize = 0;
    while l < n
        invariant
            token_info_ok(t, toks@, kinds@, ids@),
            n == t.len(),
            l <= n,
            trows@.len() == l + 1,
            tables_ok(t, trows@, prows@),
        decreases n - l,
    {
        l = l + 1;
        let mut trow: Vec<Option<Ast>> = Vec::new();
        let mut prow: Vec<Option<Ast>> = Vec::new();
        let width = n - l + 1;
        for i in 0..width
            invariant
                cell_inputs_ok(t, toks@, kinds@, ids@, trows@, prows@, 0, l as int),
                width == n - l + 1,
                n == t.len(),
                trow@.len() == i,
                prow@.len() == i,
                forall|i2: int| 0 <= i2 < i ==> term_cell_ok(t, i2, l as int, #[trigger] trow@[i2]),
                forall|i2: int| 0 <= i2 < i ==> params_cell_ok(t, i2, l as int, #[trigger] prow@[i2]),
        {
            trow.push(term_cell(toks, &kinds, &ids, &trows, &prows, i, l, Ghost(t)));
            prow.push(params_cell(toks, &kinds, &ids, &trows, &prows, i, l, Ghost(t)));
        }
        let ghost old_t = trows@;
        let ghost old_p = prows@;
        trows.push(trow);
        prows.push(prow);
        proof {
            assert(trows@ == old_t.push(trow));
            assert forall|l2: int, i2: int| 1 <= l2 < trows@.len() && 0 <= i2 <= t.len() - l2
                implies term_cell_ok(t, i2, l2, #[trigger] trows@[l2]@[i2]) by {
                if l2 < l {
                    assert(trows@[l2] == old_t[l2]);
                }
            }
            assert forall|l2: int, i2: int| 1 <= l2 < prows@.len() && 0 <= i2 <= t.len() - l2
                implies params_cell_ok(t, i2, l2, #[trigger] prows@[l2]@[i2]) by {
                if l2 < l {
                    assert(prows@[l2] == old_p[l2]);
                }
            }
            assert forall|l2: int| 1 <= l2 < trows@.len() implies #[trigger] trows@[l2]@.len() == t.len() - l2 + 1 by {
                if l2 < l {
                    assert(trows@[l2] == old_t[l2]);
                }
            }
            assert forall|l2: int| 1 <= l2 < prows@.len() implies #[trigger] prows@[l2]@.len() == t.len() - l2 + 1 by {
                if l2 < l {
                    assert(prows@[l2] == old_p[l2]);
                }
            }
        }
    }
    assert(term_cell_ok(t, 0, n as int, trows@[n as int]@[0]));
    match &trows[n][0] {
        Some(a) => Some(a.clone()),
        None => None,
    }
}

/// Parses whitespace-separated text as a `Term`: the tree of one of its
/// derivations, or the parse error when it has none.
pub fn parse_text(text: String) -> (res: Result<Ast, String>)
    ensures
        match res {
            Ok(a) => derives_term(ws_tokens(text@), 0, ws_tokens(text@).len() as int, a@),
            Err(e) => !term_derivable(ws_tokens(text@), 0, ws_tokens(text@).len() as int)
                && e@ == "Parse Error: No Rule completes"@,
        },
        match res {
            Ok(a) => parse_tree(ws_tokens(text@)) == Some(a@),
            Err(_) => parse_tree(ws_tokens(text@)) is None,
        },
{
    let toks = split_whitespace(text.as_str());
    match parse_tokens(&toks, Ghost(views_of(toks@))) {
        Some(a) => Ok(a),
        None => Err("Parse Error: No Rule completes".to_owned()),
    }
}

} // verus!
