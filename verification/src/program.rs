//! The programs that the derive functions emit: text with holes for field values.
use vstd::prelude::*;
use crate::text::texts;

verus! {

/// One unit of an emitted program: a literal character, or the rendered value of the
/// field at a position of the declaration.
///
/// The character type is a parameter so that a character taken out of a sequence is
/// stored as it stands.
pub enum Atom<C> {
    Char(C),
    Field(nat),
}

/// An emitted program as a mathematical object: text with holes for field values.
pub type Code = Seq<Atom<char>>;

/// One instruction of an emitted program, as the generated code executes it.
#[derive(Debug)]
pub enum Piece {
    /// Append this text.
    Text(String),
    /// Append the rendered value of the field at this position.
    Value(usize),
}

/// A program: the instructions that build one rendering.
///
/// Its view is the sequence of atoms it appends, which does not depend on how the
/// literal text is cut into pieces.
#[derive(Debug)]
pub struct Program {
    pub pieces: Vec<Piece>,
}

/// A text as a sequence of atoms.
pub open spec fn lit(s: Seq<char>) -> Code {
    Seq::new(s.len(), |i: int| Atom::Char(s[i]))
}

/// The atoms that one piece appends.
pub open spec fn piece_atoms(p: Piece) -> Code {
    match p {
        Piece::Text(s) => lit(s@),
        Piece::Value(i) => seq![Atom::<char>::Field(i as nat)],
    }
}

/// The atoms that a sequence of pieces appends.
pub open spec fn flat(pieces: Seq<Piece>) -> Code
    decreases pieces.len(),
{
    if pieces.len() == 0 {
        Seq::empty()
    } else {
        flat(pieces.drop_last()) + piece_atoms(pieces.last())
    }
}

/// What one atom contributes to a rendering; a field without a value contributes
/// nothing.
pub open spec fn atom_text(a: Atom<char>, values: Seq<Seq<char>>) -> Seq<char> {
    match a {
        Atom::Char(c) => seq![c],
        Atom::Field(i) => if i < values.len() {
            values[i as int]
        } else {
            Seq::empty()
        },
    }
}

/// The text that a sequence of atoms renders to, given the rendered field values.
pub open spec fn eval(atoms: Code, values: Seq<Seq<char>>) -> Seq<char>
    decreases atoms.len(),
{
    if atoms.len() == 0 {
        Seq::empty()
    } else {
        eval(atoms.drop_last(), values) + atom_text(atoms.last(), values)
    }
}

/// Whether the sequence reads the field at position `k`.
pub open spec fn reads(atoms: Code, k: nat) -> bool {
    atoms.contains(Atom::<char>::Field(k))
}

impl View for Program {
    type V = Code;

    open spec fn view(&self) -> Code {
        flat(self.pieces@)
    }
}

/// One more piece appends its atoms after those of the pieces before it.
pub proof fn lemma_flat_push(pieces: Seq<Piece>, p: Piece)
    ensures
        flat(pieces.push(p)) == flat(pieces) + piece_atoms(p),
{
    assert(pieces.push(p).drop_last() =~= pieces);
}

/// One more atom adds its text after that of the atoms before it.
pub proof fn lemma_eval_push(atoms: Code, a: Atom<char>, values: Seq<Seq<char>>)
    ensures
        eval(atoms.push(a), values) == eval(atoms, values) + atom_text(a, values),
{
    assert(atoms.push(a).drop_last() =~= atoms);
}

/// The text of a concatenation is the texts of its parts, one after the other.
pub proof fn lemma_eval_concat(a: Code, b: Code, values: Seq<Seq<char>>)
    ensures
        eval(a + b, values) == eval(a, values) + eval(b, values),
    decreases b.len(),
{
    if b.len() == 0 {
        assert(a + b =~= a);
        assert(eval(a, values) + eval(b, values) =~= eval(a, values));
    } else {
        lemma_eval_concat(a, b.drop_last(), values);
        assert((a + b).drop_last() =~= a + b.drop_last());
        assert((a + b).last() == b.last());
        assert(eval(a, values) + (eval(b.drop_last(), values) + atom_text(b.last(), values))
            =~= (eval(a, values) + eval(b.drop_last(), values)) + atom_text(b.last(), values));
    }
}

/// One more character of text is one more atom.
pub proof fn lemma_lit_push(s: Seq<char>, c: char)
    ensures
        lit(s.push(c)) == lit(s).push(Atom::Char(c)),
{
    assert(lit(s.push(c)) =~= lit(s).push(Atom::Char(c)));
}

/// Literal text renders to itself, whatever the field values are.
pub proof fn lemma_eval_lit(s: Seq<char>, values: Seq<Seq<char>>)
    ensures
        eval(lit(s), values) == s,
    decreases s.len(),
{
    if s.len() == 0 {
        assert(eval(lit(s), values) =~= s);
    } else {
        lemma_eval_lit(s.drop_last(), values);
        assert(lit(s).drop_last() =~= lit(s.drop_last()));
        assert(s.drop_last() + seq![s.last()] =~= s);
    }
}

impl Program {
    /// The empty program.
    pub fn new() -> (p: Program)
        ensures
            p@ == Code::empty(),
    {
        Program { pieces: Vec::new() }
    }

    /// Appends literal text.
    pub fn push_text(&mut self, s: &str)
        ensures
            final(self)@ == old(self)@ + lit(s@),
    {
        let owned = s.to_owned();
        proof {
            lemma_flat_push(self.pieces@, Piece::Text(owned));
        }
        self.pieces.push(Piece::Text(owned));
    }

    /// Appends the rendered value of the field at `index`.
    pub fn push_value(&mut self, index: usize)
        ensures
            final(self)@ == old(self)@.push(Atom::Field(index as nat)),
    {
        proof {
            lemma_flat_push(self.pieces@, Piece::Value(index));
            assert(self@ + seq![Atom::Field(index as nat)] =~= self@.push(
                Atom::Field(index as nat),
            ));
        }
        self.pieces.push(Piece::Value(index));
    }

    /// Appends a copy of another program.
    pub fn push_program(&mut self, other: &Program)
        ensures
            final(self)@ == old(self)@ + other@,
    {
        let mut i: usize = 0;
        while i < other.pieces.len()
            invariant
                i <= other.pieces.len(),
                self@ == old(self)@ + flat(other.pieces@.take(i as int)),
            decreases other.pieces.len() - i,
        {
            proof {
                assert(other.pieces@.take(i + 1) =~= other.pieces@.take(i as int).push(
                    other.pieces@[i as int],
                ));
                lemma_flat_push(other.pieces@.take(i as int), other.pieces@[i as int]);
            }
            match &other.pieces[i] {
                Piece::Text(s) => {
                    self.push_text(s.as_str());
                },
                Piece::Value(k) => {
                    self.push_value(*k);
                },
            }
            assert(self@ =~= old(self)@ + flat(other.pieces@.take(i + 1)));
            i += 1;
        }
        assert(other.pieces@.take(other.pieces.len() as int) =~= other.pieces@);
    }

    /// Runs the program on the rendered field values and returns the text it builds.
    pub fn run(&self, values: &Vec<String>) -> (out: String)
        ensures
            out@ == eval(self@, texts(values@)),
    {
        let mut out = String::new();
        let mut i: usize = 0;
        while i < self.pieces.len()
            invariant
                i <= self.pieces.len(),
                out@ == eval(flat(self.pieces@.take(i as int)), texts(values@)),
            decreases self.pieces.len() - i,
        {
            proof {
                assert(self.pieces@.take(i + 1) =~= self.pieces@.take(i as int).push(
                    self.pieces@[i as int],
                ));
                lemma_flat_push(self.pieces@.take(i as int), self.pieces@[i as int]);
                lemma_eval_concat(
                    flat(self.pieces@.take(i as int)),
                    piece_atoms(self.pieces@[i as int]),
                    texts(values@),
                );
            }
            match &self.pieces[i] {
                Piece::Text(s) => {
                    proof {
                        lemma_eval_lit(s@, texts(values@));
                    }
                    out.append(s.as_str());
                },
                Piece::Value(k) => {
                    proof {
                        let a: Code = seq![Atom::Field(*k as nat)];
                        lemma_eval_push(Code::empty(), Atom::Field(*k as nat), texts(values@));
                        assert(a =~= Code::empty().push(Atom::Field(*k as nat)));
                    }
                    if *k < values.len() {
                        out.append(values[*k].as_str());
                    } else {
                        assert(out@ + Seq::<char>::empty() =~= out@);
                    }
                },
            }
            i += 1;
        }
        assert(self.pieces@.take(self.pieces.len() as int) =~= self.pieces@);
        out
    }
}

} // verus!
