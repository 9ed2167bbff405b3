//! The tree model: tokens under a root, and their rendering as text.

use vstd::prelude::*;

verus! {

/// A leaf of the tree: one character of the program text.
#[derive(Clone, Copy, Debug, PartialEq, Eq, Structural)]
pub struct Token {
    pub glyph: char,
}

/// The root of a tree: its children in program order.
#[derive(Debug)]
pub struct Root {
    pub children: Vec<Token>,
}

/// The glyphs of a sequence of tokens, in order.
pub open spec fn glyphs_of(tokens: Seq<Token>) -> Seq<char> {
    Seq::new(tokens.len(), |i: int| tokens[i].glyph)
}

/// The token that stands for a glyph.
pub open spec fn token_of(glyph: char) -> Token {
    Token { glyph }
}

/// The tokens that stand for a sequence of glyphs, in order.
pub open spec fn tokens_of(glyphs: Seq<char>) -> Seq<Token> {
    Seq::new(glyphs.len(), |i: int| token_of(glyphs[i]))
}

/// Tokens and glyphs stand for each other one for one.
pub proof fn lemma_tokens_and_glyphs(tokens: Seq<Token>, glyphs: Seq<char>)
    ensures
        tokens_of(glyphs_of(tokens)) == tokens,
        glyphs_of(tokens_of(glyphs)) == glyphs,
{
    assert(tokens_of(glyphs_of(tokens)) =~= tokens);
    assert(glyphs_of(tokens_of(glyphs)) =~= glyphs);
}

impl Root {
    /// The glyphs of the children, in order.
    pub fn glyphs(&self) -> (glyphs: Vec<char>)
        ensures
            glyphs@ == glyphs_of(self@),
    {
        let n = self.children.len();
        let mut glyphs: Vec<char> = Vec::new();
        let mut i: usize = 0;
        while i < n
            invariant
                n == self@.len(),
                i <= n,
                glyphs@ == glyphs_of(self@.take(i as int)),
            decreases n - i,
        {
            glyphs.push(self.children[i].glyph);
            assert(glyphs@ =~= glyphs_of(self@.take(i + 1)));
            i = i + 1;
        }
        assert(self@.take(n as int) =~= self@);
        glyphs
    }

    /// The tree whose children stand for `glyphs`, in order.
    pub fn from_glyphs(glyphs: &Vec<char>) -> (tree: Root)
        ensures
            tree@ == tokens_of(glyphs@),
    {
        let n = glyphs.len();
        let mut children: Vec<Token> = Vec::new();
        let mut i: usize = 0;
        while i < n
            invariant
                n == glyphs@.len(),
                i <= n,
                children@ == tokens_of(glyphs@.take(i as int)),
            decreases n - i,
        {
            let token = Token { glyph: glyphs[i] };
            assert(token == token_of(glyphs@[i as int]));
            children.push(token);
            assert(children@ =~= tokens_of(glyphs@.take(i + 1)));
            i = i + 1;
        }
        assert(glyphs@.take(n as int) =~= glyphs@);
        Root { children }
    }
}

impl View for Root {
    type V = Seq<Token>;

    open spec fn view(&self) -> Seq<Token> {
        self.children@
    }
}

/// Something that can be rendered as text.
pub trait Node {
    /// The text this value renders to.
    spec fn rendering(&self) -> Seq<char>;

    /// Appends the rendering of this value to `out`.
    fn pp(&self, out: &mut String)
        ensures
            final(out)@ == old(out)@ + self.rendering(),
    ;
}

/// `String::push`: the text afterwards is the text before followed by `c`.
#[verifier::external_body]
fn push_char(out: &mut String, c: char)
    ensures
        final(out)@ == old(out)@.push(c),
{
    out.push(c);
}

impl Node for Token {
    open spec fn rendering(&self) -> Seq<char> {
        seq![self.glyph]
    }

    fn pp(&self, out: &mut String) {
        push_char(out, self.glyph);
    }
}

impl Node for Root {
    open spec fn rendering(&self) -> Seq<char> {
        glyphs_of(self@)
    }

    fn pp(&self, out: &mut String) {
        let n = self.children.len();
        let mut i: usize = 0;
        while i < n
            invariant
                n == self.children.len(),
                i <= n,
                out@ == old(out)@ + glyphs_of(self@.take(i as int)),
            decreases n - i,
        {
            self.children[i].pp(out);
            proof {
                assert(glyphs_of(self@.take(i as int)) + seq![self@[i as int].glyph]
                    =~= glyphs_of(self@.take(i + 1)));
            }
            i = i + 1;
        }
        proof {
            assert(self@.take(n as int) =~= self@);
        }
    }
}

/// Renders `lol` as text.
pub fn pretty(lol: &dyn Node) -> (s: String)
    ensures
        s@ == lol.rendering(),
{
    let mut s = String::new();
    lol.pp(&mut s);
    s
}

} // verus!
