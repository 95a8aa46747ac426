//! The symbol cache of one document: each glyph that is met gets one
//! position-independent definition, made on first sight and found again
//! afterwards.

use vstd::prelude::*;
use std::collections::HashMap;
use crate::outline::{OutlineCommand, PathCommand, Transform, transcode, transcode_spec};
use crate::scale::{ScaleContext, SPACING_PER_EM};
use crate::text::{decimal, push_decimal, string_of};

verus! {

broadcast use vstd::std_specs::hash::group_hash_axioms;

/// A glyph of one face within one document: the face's slot and the glyph's
/// index in that face. Glyph indices of different faces do not meet.
#[derive(Clone, Copy, Debug, PartialEq, Eq, Structural)]
pub struct GlyphIdentity {
    /// The slot of the face within the document's font family.
    pub face: u8,
    /// The glyph's index within the face.
    pub glyph: u16,
}

impl GlyphIdentity {
    /// The number that stands for the identity within a document.
    pub open spec fn key(self) -> u32 {
        (self.face as int * 0x1_0000 + self.glyph as int) as u32
    }

    /// The name under which the glyph's definition is referred to: the
    /// letter `g` and the key in decimal.
    pub open spec fn name(self) -> Seq<char> {
        seq!['g'] + decimal(self.key() as nat)
    }

    /// Computes [`GlyphIdentity::key`].
    pub fn key_value(&self) -> (k: u32)
        ensures
            k == self.key(),
    {
        self.face as u32 * 0x1_0000 + self.glyph as u32
    }

    /// Computes [`GlyphIdentity::name`].
    pub fn symbol_name(&self) -> (s: String)
        ensures
            s@ == self.name(),
    {
        let mut chars: Vec<char> = Vec::new();
        chars.push('g');
        push_decimal(&mut chars, self.key_value() as u64);
        let s = string_of(&chars, 0, chars.len());
        assert(s@ =~= self.name());
        s
    }
}

/// Distinct identities have distinct keys.
pub proof fn lemma_key_injective(a: GlyphIdentity, b: GlyphIdentity)
    ensures
        a.key() == b.key() <==> a == b,
{
}

/// The outlines of one face, by glyph index. A glyph that the table does not
/// hold has no outline.
pub struct GlyphOutlines {
    table: HashMap<u16, Vec<OutlineCommand>>,
}

impl GlyphOutlines {
    /// The outline of a glyph: its commands in order, none for a glyph
    /// without outline.
    pub closed spec fn outline_of(&self, glyph: u16) -> Seq<OutlineCommand> {
        if self.table@.contains_key(glyph) {
            self.table@[glyph]@
        } else {
            Seq::<OutlineCommand>::empty()
        }
    }

    /// A table in which no glyph has an outline.
    pub fn new() -> (t: GlyphOutlines)
        ensures
            forall|g: u16| (#[trigger] t.outline_of(g)).len() == 0,
    {
        GlyphOutlines { table: HashMap::new() }
    }

    /// Sets the outline of one glyph.
    pub fn insert(&mut self, glyph: u16, outline: Vec<OutlineCommand>)
        ensures
            final(self).outline_of(glyph) == outline@,
            forall|g: u16| g != glyph ==> final(self).outline_of(g) == old(self).outline_of(g),
    {
        self.table.insert(glyph, outline);
    }

    /// The path data of a glyph's outline under `transform`.
    pub fn transcode_glyph(&self, glyph: u16, transform: Transform) -> (d: Vec<PathCommand>)
        ensures
            d@ == transcode_spec(self.outline_of(glyph), transform),
    {
        match self.table.get(&glyph) {
            Some(outline) => transcode(outline, transform),
            None => {
                let d: Vec<PathCommand> = Vec::new();
                assert(d@ =~= transcode_spec(self.outline_of(glyph), transform));
                d
            },
        }
    }
}

/// One definition of the symbol table.
#[derive(Debug)]
pub struct SymbolDefinition {
    /// The glyph that the definition draws.
    pub identity: GlyphIdentity,
    /// The glyph's path data at the local origin, in scaled positions.
    pub path: Vec<PathCommand>,
    /// The denominator of the path data's positions.
    pub denominator: i128,
}

/// A definition as a value: the identity and the path data.
pub struct Symbol {
    pub identity: GlyphIdentity,
    pub path: Seq<PathCommand>,
    pub denominator: i128,
}

impl View for SymbolDefinition {
    type V = Symbol;

    open spec fn view(&self) -> Symbol {
        Symbol { identity: self.identity, path: self.path@, denominator: self.denominator }
    }
}

/// Index of the definition of `identity` among `symbols`, or `-1`.
pub open spec fn position_of(symbols: Seq<Symbol>, identity: GlyphIdentity) -> int
    decreases symbols.len(),
{
    if symbols.len() == 0 {
        -1
    } else if symbols.last().identity == identity {
        symbols.len() - 1
    } else {
        position_of(symbols.drop_last(), identity)
    }
}

/// No glyph is defined twice.
pub open spec fn distinct(symbols: Seq<Symbol>) -> bool {
    forall|i: int, j: int|
        0 <= i < symbols.len() && 0 <= j < symbols.len() && (#[trigger] symbols[i]).identity == (
        #[trigger] symbols[j]).identity ==> i == j
}

/// The transform of a definition: scaled to the context, y axis flipped, at
/// the local origin.
pub open spec fn definition_transform(ctx: ScaleContext) -> Transform {
    Transform::flipped(SPACING_PER_EM as int * ctx.size())
}

/// The symbol table after `identity` was asked for: unchanged where it is
/// defined already, else with its definition appended.
pub open spec fn symbols_after(
    symbols: Seq<Symbol>,
    identity: GlyphIdentity,
    outline: Seq<OutlineCommand>,
    ctx: ScaleContext,
) -> Seq<Symbol> {
    if position_of(symbols, identity) >= 0 {
        symbols
    } else {
        symbols.push(
            Symbol {
                identity,
                path: transcode_spec(outline, definition_transform(ctx)),
                denominator: ctx.denominator() as i128,
            },
        )
    }
}

/// The symbol under which `identity` is found once it was asked for.
pub open spec fn symbol_after(symbols: Seq<Symbol>, identity: GlyphIdentity) -> int {
    if position_of(symbols, identity) >= 0 {
        position_of(symbols, identity)
    } else {
        symbols.len() as int
    }
}

/// What `position_of` finds: a definition of the identity, and the only place
/// where a table without duplicates holds one.
pub proof fn lemma_position_of(symbols: Seq<Symbol>, identity: GlyphIdentity)
    ensures
        -1 <= position_of(symbols, identity) < symbols.len(),
        position_of(symbols, identity) >= 0 ==> symbols[position_of(
            symbols,
            identity,
        )].identity == identity,
        position_of(symbols, identity) < 0 ==> forall|i: int|
            0 <= i < symbols.len() ==> (#[trigger] symbols[i]).identity != identity,
        forall|i: int|
            0 <= i < symbols.len() && distinct(symbols) && (#[trigger] symbols[i]).identity
                == identity ==> position_of(symbols, identity) == i,
    decreases symbols.len(),
{
    if symbols.len() > 0 {
        let rest = symbols.drop_last();
        lemma_position_of(rest, identity);
        if symbols.last().identity != identity {
            assert forall|i: int|
                0 <= i < symbols.len() && distinct(symbols) && (#[trigger] symbols[i]).identity
                    == identity implies position_of(symbols, identity) == i by {
                assert(rest[i] == symbols[i]);
                assert forall|a: int, b: int|
                    0 <= a < rest.len() && 0 <= b < rest.len() && (#[trigger] rest[a]).identity
                        == (#[trigger] rest[b]).identity implies a == b by {
                    assert(rest[a] == symbols[a]);
                    assert(rest[b] == symbols[b]);
                }
            }
            if position_of(symbols, identity) < 0 {
                assert forall|i: int| 0 <= i < symbols.len() implies (
                #[trigger] symbols[i]).identity != identity by {
                    if i < rest.len() {
                        assert(rest[i] == symbols[i]);
                    }
                }
            }
        }
    }
}

/// Asking twice for one glyph gives one symbol and one definition: the
/// second request finds what the first one left, whatever outline and scale
/// it is made with.
pub proof fn lemma_get_or_create_idempotent(
    symbols: Seq<Symbol>,
    identity: GlyphIdentity,
    outline: Seq<OutlineCommand>,
    ctx: ScaleContext,
    outline2: Seq<OutlineCommand>,
    ctx2: ScaleContext,
)
    ensures
        ({
            let once = symbols_after(symbols, identity, outline, ctx);
            &&& symbol_after(once, identity) == symbol_after(symbols, identity)
            &&& symbols_after(once, identity, outline2, ctx2) == once
        }),
{
    let once = symbols_after(symbols, identity, outline, ctx);
    lemma_position_of(symbols, identity);
    if position_of(symbols, identity) < 0 {
        assert(once.drop_last() =~= symbols);
    }
}

/// Asking for a glyph keeps a table free of duplicates so.
pub proof fn lemma_symbols_after_distinct(
    symbols: Seq<Symbol>,
    identity: GlyphIdentity,
    outline: Seq<OutlineCommand>,
    ctx: ScaleContext,
)
    requires
        distinct(symbols),
    ensures
        distinct(symbols_after(symbols, identity, outline, ctx)),
{
    lemma_position_of(symbols, identity);
}

/// The index finds each definition, and whatever it finds is the definition
/// of the key that was looked up.
pub closed spec fn indexed(index: Map<u32, usize>, symbols: Seq<Symbol>) -> bool {
    &&& forall|i: int|
        0 <= i < symbols.len() ==> index.contains_key((#[trigger] symbols[i]).identity.key())
            && index[symbols[i].identity.key()] == i
    &&& forall|k: u32|
        index.contains_key(k) ==> (#[trigger] index[k]) < symbols.len() && symbols[index[k] as int].identity.key()
            == k
}

/// An indexed table holds no glyph twice.
proof fn lemma_indexed_distinct(index: Map<u32, usize>, symbols: Seq<Symbol>)
    requires
        indexed(index, symbols),
    ensures
        distinct(symbols),
{
    assert forall|i: int, j: int|
        0 <= i < symbols.len() && 0 <= j < symbols.len() && (#[trigger] symbols[i]).identity == (
        #[trigger] symbols[j]).identity implies i == j by {
        assert(symbols[i].identity.key() == symbols[j].identity.key());
    }
}

/// The symbol table of one document. A new cache is empty; definitions are
/// only ever added, in the order in which their glyphs are first met.
pub struct GlyphSymbolCache {
    index: HashMap<u32, usize>,
    symbols: Vec<SymbolDefinition>,
}

impl GlyphSymbolCache {
    #[verifier::type_invariant]
    spec fn inv(self) -> bool {
        indexed(self.index@, self.symbols())
    }

    /// The definitions, in the order in which they were made.
    pub closed spec fn symbols(&self) -> Seq<Symbol> {
        Seq::new(self.symbols@.len(), |i: int| self.symbols@[i]@)
    }

    /// Whether the symbol exists and has a visible outline.
    pub open spec fn visible(&self, symbol: int) -> bool {
        0 <= symbol < self.symbols().len() && self.symbols()[symbol].path.len() > 0
    }

    /// An empty cache, for a new document.
    pub fn new() -> (cache: GlyphSymbolCache)
        ensures
            cache.symbols().len() == 0,
    {
        GlyphSymbolCache { index: HashMap::new(), symbols: Vec::new() }
    }

    /// Shows that no glyph is defined twice. Nothing happens at run time.
    pub fn distinct_symbols(&self)
        ensures
            distinct(self.symbols()),
    {
        proof {
            use_type_invariant(self);
            lemma_indexed_distinct(self.index@, self.symbols());
        }
    }

    /// The number of definitions.
    pub fn len(&self) -> (n: usize)
        ensures
            n == self.symbols().len(),
            distinct(self.symbols()),
    {
        proof {
            use_type_invariant(self);
            lemma_indexed_distinct(self.index@, self.symbols());
        }
        self.symbols.len()
    }

    /// The definitions, in the order in which they were made.
    pub fn definitions(&self) -> (defs: &Vec<SymbolDefinition>)
        ensures
            defs@.len() == self.symbols().len(),
            forall|i: int| 0 <= i < defs@.len() ==> (#[trigger] defs@[i])@ == self.symbols()[i],
            distinct(self.symbols()),
    {
        proof {
            use_type_invariant(self);
            lemma_indexed_distinct(self.index@, self.symbols());
        }
        &self.symbols
    }

    /// Ends the cache and hands out its definitions, in the order in which
    /// they were made.
    pub fn into_definitions(self) -> (defs: Vec<SymbolDefinition>)
        ensures
            defs@.len() == self.symbols().len(),
            forall|i: int| 0 <= i < defs@.len() ==> (#[trigger] defs@[i])@ == self.symbols()[i],
            distinct(self.symbols()),
    {
        proof {
            use_type_invariant(&self);
            lemma_indexed_distinct(self.index@, self.symbols());
        }
        self.symbols
    }

    /// Whether the symbol has a visible outline: path data that is not
    /// empty.
    pub fn has_outline(&self, symbol: usize) -> (r: bool)
        ensures
            r == self.visible(symbol as int),
    {
        symbol < self.symbols.len() && self.symbols[symbol].path.len() > 0
    }

    /// The symbol of a glyph, if the glyph is defined.
    pub fn lookup(&self, identity: GlyphIdentity) -> (r: Option<usize>)
        ensures
            match r {
                Some(symbol) => symbol as int == position_of(self.symbols(), identity),
                None => position_of(self.symbols(), identity) == -1,
            },
    {
        proof {
            use_type_invariant(self);
            lemma_indexed_distinct(self.index@, self.symbols());
            lemma_position_of(self.symbols(), identity);
        }
        let key = identity.key_value();
        match self.index.get(&key) {
            Some(at) => {
                proof {
                    lemma_key_injective(self.symbols()[*at as int].identity, identity);
                }
                Some(*at)
            },
            None => {
                None
            },
        }
    }

    /// The symbol of a glyph. A glyph that is met for the first time is
    /// transcoded at the local origin and defined; one that is defined already
    /// is found again, and nothing is decoded or added.
    pub fn get_or_create(
        &mut self,
        identity: GlyphIdentity,
        outlines: &GlyphOutlines,
        ctx: &ScaleContext,
    ) -> (symbol: usize)
        ensures
            symbol as int == symbol_after(old(self).symbols(), identity),
            final(self).symbols() == symbols_after(
                old(self).symbols(),
                identity,
                outlines.outline_of(identity.glyph),
                *ctx,
            ),
            distinct(final(self).symbols()),
            symbol < final(self).symbols().len(),
            final(self).symbols()[symbol as int].identity == identity,
    {
        proof {
            use_type_invariant(&*self);
            lemma_indexed_distinct(self.index@, self.symbols());
            lemma_position_of(self.symbols(), identity);
            lemma_symbols_after_distinct(
                self.symbols(),
                identity,
                outlines.outline_of(identity.glyph),
                *ctx,
            );
        }
        match self.lookup(identity) {
            Some(symbol) => symbol,
            None => {
                let ghost before = self.symbols();
                let scale: i64 = SPACING_PER_EM as i64 * ctx.target_size() as i64;
                let transform = Transform {
                    scale_x: scale,
                    scale_y: -scale,
                    translate_x: 0,
                    translate_y: 0,
                };
                let path = outlines.transcode_glyph(identity.glyph, transform);
                let denominator = ctx.denominator_value();
                let symbol = self.symbols.len();
                let key = identity.key_value();
                proof {
                    assert forall|i: int| 0 <= i < before.len() implies (
                    #[trigger] before[i]).identity.key() != key by {
                        lemma_key_injective(before[i].identity, identity);
                    }
                }
                let mut taken = GlyphSymbolCache::new();
                core::mem::swap(self, &mut taken);
                let GlyphSymbolCache { mut index, mut symbols } = taken;
                index.insert(key, symbol);
                symbols.push(SymbolDefinition { identity, path, denominator });
                proof {
                    let after = Seq::new(symbols@.len(), |i: int| symbols@[i]@);
                    assert(after =~= before.push(symbols@[symbol as int]@));
                    assert forall|i: int| 0 <= i < after.len() implies index@.contains_key(
                        (#[trigger] after[i]).identity.key(),
                    ) && index@[after[i].identity.key()] == i by {
                        if i < before.len() {
                            assert(after[i] == before[i]);
                        }
                    }
                    assert(indexed(index@, after));
                }
                *self = GlyphSymbolCache { index, symbols };
                proof {
                    assert(self.symbols() =~= before.push(
                        Symbol {
                            identity,
                            path: transcode_spec(
                                outlines.outline_of(identity.glyph),
                                definition_transform(*ctx),
                            ),
                            denominator: ctx.denominator() as i128,
                        },
                    ));
                }
                symbol
            },
        }
    }
}

} // verus!
