//! The level-script parser: one placement directive per non-empty line. The
//! first word selects the material; the remaining words are `x N`, `y N`,
//! `z N`, `variant N`, `rand`/`random`, or a team name. An unrecognized word
//! is skipped; a malformed line is skipped whole and counted, and parsing
//! continues with the next line.

use vstd::prelude::*;

use crate::bytes::{
    copy_bytes, lower_bytes, lower_seq, parse_i64, parse_int_spec, split_bytes, split_seq,
    str_bytes, token_is,
};
use crate::catalog::parse_material;
use crate::coords::TileCoord;
use crate::grid::{Block, MapData};
use crate::tiles::{Team, Tile, Variant};

verus! {

/// The non-empty words of a line split at spaces.
pub open spec fn nonblank(toks: Seq<Seq<u8>>) -> Seq<Seq<u8>>
    decreases toks.len(),
{
    if toks.len() == 0 {
        Seq::empty()
    } else {
        let rest = nonblank(toks.drop_first());
        if toks[0].len() > 0 {
            seq![toks[0]] + rest
        } else {
            rest
        }
    }
}

/// Keeping one more word appends it when non-empty.
proof fn lemma_nonblank_push(toks: Seq<Seq<u8>>, x: Seq<u8>)
    ensures
        nonblank(toks.push(x)) == if x.len() > 0 {
            nonblank(toks).push(x)
        } else {
            nonblank(toks)
        },
    decreases toks.len(),
{
    if toks.len() == 0 {
        assert(toks.push(x).drop_first() =~= Seq::<Seq<u8>>::empty());
        assert(toks.push(x)[0] == x);
        assert(nonblank(Seq::<Seq<u8>>::empty()) =~= Seq::<Seq<u8>>::empty());
        if x.len() > 0 {
            assert(nonblank(toks.push(x)) =~= nonblank(toks).push(x));
        }
    } else {
        assert(toks.push(x).drop_first() =~= toks.drop_first().push(x));
        lemma_nonblank_push(toks.drop_first(), x);
        assert(toks.push(x)[0] == toks[0]);
        if x.len() > 0 {
            assert(nonblank(toks.push(x)) =~= nonblank(toks).push(x));
        } else {
            assert(nonblank(toks.push(x)) =~= nonblank(toks));
        }
    }
}

/// A byte with every ASCII whitespace byte a line can hold (tab, vertical
/// tab, form feed, carriage return) folded to a space.
pub open spec fn normalize_ws_byte(b: u8) -> u8 {
    if b == 9 || b == 11 || b == 12 || b == 13 {
        32u8
    } else {
        b
    }
}

/// A line with every ASCII whitespace byte folded to a space.
pub open spec fn normalize_ws(line: Seq<u8>) -> Seq<u8> {
    line.map_values(|b: u8| normalize_ws_byte(b))
}

/// The words of a script line: split at ASCII whitespace, empties dropped.
pub open spec fn words_of(line: Seq<u8>) -> Seq<Seq<u8>> {
    nonblank(split_seq(normalize_ws(line), 32))
}

/// A coordinate numeral: a decimal i32, optionally signed.
pub open spec fn parse_coord(s: Seq<u8>) -> Option<i32> {
    match parse_int_spec(s) {
        Some(v) => if i32::MIN <= v <= i32::MAX {
            Some(v as i32)
        } else {
            None
        },
        None => None,
    }
}

/// A variant-index numeral: a decimal u8.
pub open spec fn parse_variant_index(s: Seq<u8>) -> Option<u8> {
    match parse_int_spec(s) {
        Some(v) => if 0 <= v <= 255 {
            Some(v as u8)
        } else {
            None
        },
        None => None,
    }
}

/// The placement a material's key/value words describe, folded left to right
/// over the starting block: coordinates, team and variant words update it, an
/// unknown word is skipped, and a key missing its value or with a malformed
/// value fails the line.
pub open spec fn parse_words(ws: Seq<Seq<u8>>, b: Block) -> Option<Block>
    decreases ws.len(),
{
    if ws.len() == 0 {
        Some(b)
    } else {
        let w = lower_seq(ws[0]);
        if w == str_bytes("x"@) {
            if ws.len() < 2 {
                None
            } else {
                match parse_coord(ws[1]) {
                    Some(n) => parse_words(
                        ws.skip(2),
                        Block { translation: TileCoord { x: n, ..b.translation }, ..b },
                    ),
                    None => None,
                }
            }
        } else if w == str_bytes("y"@) {
            if ws.len() < 2 {
                None
            } else {
                match parse_coord(ws[1]) {
                    Some(n) => parse_words(
                        ws.skip(2),
                        Block { translation: TileCoord { y: n, ..b.translation }, ..b },
                    ),
                    None => None,
                }
            }
        } else if w == str_bytes("z"@) {
            if ws.len() < 2 {
                None
            } else {
                match parse_coord(ws[1]) {
                    Some(n) => parse_words(
                        ws.skip(2),
                        Block { translation: TileCoord { z: n, ..b.translation }, ..b },
                    ),
                    None => None,
                }
            }
        } else if w == str_bytes("rand"@) || w == str_bytes("random"@) {
            parse_words(ws.skip(1), Block { variant: Variant::Random, ..b })
        } else if w == str_bytes("variant"@) {
            if ws.len() < 2 {
                None
            } else {
                match parse_variant_index(ws[1]) {
                    Some(n) => parse_words(ws.skip(2), Block { variant: Variant::Fixed(n), ..b }),
                    None => None,
                }
            }
        } else if w == str_bytes("yellow"@) {
            parse_words(ws.skip(1), Block { color: Team::Yellow, ..b })
        } else if w == str_bytes("pink"@) {
            parse_words(ws.skip(1), Block { color: Team::Pink, ..b })
        } else {
            parse_words(ws.skip(1), b)
        }
    }
}

/// The starting placement of a material: the origin, no team, the default
/// variant.
pub open spec fn default_block(t: Tile) -> Block {
    Block {
        tile: t,
        color: Team::Neutral,
        translation: TileCoord { x: 0, y: 0, z: 0 },
        variant: Variant::Default,
    }
}

/// The placement one script line describes, or `None` for a blank or
/// malformed line.
pub open spec fn parse_line(line: Seq<u8>) -> Option<Block> {
    let ws = words_of(line);
    if ws.len() == 0 {
        None
    } else {
        match parse_material(lower_seq(ws[0])) {
            Some(t) => parse_words(ws.skip(1), default_block(t)),
            None => None,
        }
    }
}

/// Whether a line holds no words at all.
pub open spec fn blank_line(line: Seq<u8>) -> bool {
    words_of(line).len() == 0
}

/// The placements of a script's lines, in order, malformed lines skipped.
pub open spec fn parse_map_blocks(lines: Seq<Seq<u8>>) -> Seq<Block>
    decreases lines.len(),
{
    if lines.len() == 0 {
        Seq::empty()
    } else {
        let rest = parse_map_blocks(lines.drop_first());
        match parse_line(lines[0]) {
            Some(b) => seq![b] + rest,
            None => rest,
        }
    }
}

/// How many non-blank lines fail to parse.
pub open spec fn skipped_lines(lines: Seq<Seq<u8>>) -> nat
    decreases lines.len(),
{
    if lines.len() == 0 {
        0
    } else {
        let rest = skipped_lines(lines.drop_first());
        if parse_line(lines[0]) is None && !blank_line(lines[0]) {
            rest + 1
        } else {
            rest
        }
    }
}

/// One more parsed line appends its placement.
proof fn lemma_parse_map_blocks_push(lines: Seq<Seq<u8>>, x: Seq<u8>)
    ensures
        parse_map_blocks(lines.push(x)) == (match parse_line(x) {
            Some(b) => parse_map_blocks(lines).push(b),
            None => parse_map_blocks(lines),
        }),
        skipped_lines(lines.push(x)) == skipped_lines(lines) + (
        if parse_line(x) is None && !blank_line(x) {
            1nat
        } else {
            0nat
        }),
    decreases lines.len(),
{
    if lines.len() == 0 {
        assert(lines.push(x).drop_first() =~= Seq::<Seq<u8>>::empty());
        assert(lines.push(x)[0] == x);
        assert(parse_map_blocks(Seq::<Seq<u8>>::empty()) =~= Seq::<Block>::empty());
        assert(skipped_lines(Seq::<Seq<u8>>::empty()) == 0);
        match parse_line(x) {
            Some(b) => {
                assert(parse_map_blocks(lines.push(x)) =~= parse_map_blocks(lines).push(b));
            },
            None => {},
        }
    } else {
        assert(lines.push(x).drop_first() =~= lines.drop_first().push(x));
        lemma_parse_map_blocks_push(lines.drop_first(), x);
        assert(lines.push(x)[0] == lines[0]);
        match parse_line(x) {
            Some(b) => {
                assert(parse_map_blocks(lines.push(x)) =~= parse_map_blocks(lines).push(b));
            },
            None => {},
        }
    }
}

/// Parse a coordinate numeral.
fn parse_coord_token(t: &Vec<u8>) -> (r: Option<i32>)
    ensures
        r == parse_coord(t@),
{
    match parse_i64(t) {
        Some(v) => {
            if -2147483648 <= v && v <= 2147483647 {
                Some(v as i32)
            } else {
                None
            }
        },
        None => None,
    }
}

/// Parse a variant-index numeral.
fn parse_variant_index_token(t: &Vec<u8>) -> (r: Option<u8>)
    ensures
        r == parse_variant_index(t@),
{
    match parse_i64(t) {
        Some(v) => {
            if 0 <= v && v <= 255 {
                Some(v as u8)
            } else {
                None
            }
        },
        None => None,
    }
}

impl Tile {
    /// Fold a line's key/value words, after its material word, into a
    /// placement of this material; `None` when a key misses its value or a
    /// value is malformed.
    pub fn parse(self, ws: &Vec<Vec<u8>>, from: usize) -> (r: Option<Block>)
        requires
            from <= ws@.len(),
        ensures
            r == parse_words(ws@.map_values(|v: Vec<u8>| v@).skip(from as int), default_block(self)),
    {
        let ghost wv = ws@.map_values(|v: Vec<u8>| v@);
        let n = ws.len();
        let mut b = Block {
            tile: self,
            color: Team::Neutral,
            translation: TileCoord { x: 0, y: 0, z: 0 },
            variant: Variant::Default,
        };
        let mut i: usize = from;
        #[verifier::loop_isolation(false)]
        while i < n
            invariant
                from <= i <= n,
                parse_words(wv.skip(from as int), default_block(self)) == parse_words(
                    wv.skip(i as int),
                    b,
                ),
            decreases n - i,
        {
            proof {
                assert(wv.skip(i as int)[0] == wv[i as int]);
                assert(wv[i as int] == ws@[i as int]@);
                assert(wv.skip(i as int).drop_first() =~= wv.skip(i as int + 1));
                if i + 1 < n {
                    assert(wv.skip(i as int)[1] == wv[i as int + 1]);
                    assert(wv[i as int + 1] == ws@[i as int + 1]@);
                    assert(wv.skip(i as int).skip(2) =~= wv.skip(i as int + 2));
                }
            }
            let w = lower_bytes(&ws[i]);
            if token_is(&w, "x") {
                if i + 1 >= n {
                    return None;
                }
                match parse_coord_token(&ws[i + 1]) {
                    Some(v) => {
                        b.translation.x = v;
                        i = i + 2;
                    },
                    None => { return None },
                }
            } else if token_is(&w, "y") {
                if i + 1 >= n {
                    return None;
                }
                match parse_coord_token(&ws[i + 1]) {
                    Some(v) => {
                        b.translation.y = v;
                        i = i + 2;
                    },
                    None => { return None },
                }
            } else if token_is(&w, "z") {
                if i + 1 >= n {
                    return None;
                }
                match parse_coord_token(&ws[i + 1]) {
                    Some(v) => {
                        b.translation.z = v;
                        i = i + 2;
                    },
                    None => { return None },
                }
            } else if token_is(&w, "rand") || token_is(&w, "random") {
                b.variant = Variant::Random;
                i = i + 1;
            } else if token_is(&w, "variant") {
                if i + 1 >= n {
                    return None;
                }
                match parse_variant_index_token(&ws[i + 1]) {
                    Some(v) => {
                        b.variant = Variant::Fixed(v);
                        i = i + 2;
                    },
                    None => { return None },
                }
            } else if token_is(&w, "yellow") {
                b.color = Team::Yellow;
                i = i + 1;
            } else if token_is(&w, "pink") {
                b.color = Team::Pink;
                i = i + 1;
            } else {
                i = i + 1;
            }
        }
        proof {
            assert(wv.skip(n as int) =~= Seq::<Seq<u8>>::empty());
        }
        Some(b)
    }
}

/// Tokenize a script line: fold ASCII whitespace to spaces, split at spaces,
/// drop empty words.
fn line_words(line: &Vec<u8>) -> (r: Vec<Vec<u8>>)
    ensures
        r@.map_values(|v: Vec<u8>| v@) == words_of(line@),
{
    let ln = line.len();
    let mut folded: Vec<u8> = Vec::new();
    let mut k: usize = 0;
    while k < ln
        invariant
            0 <= k <= ln,
            ln == line@.len(),
            folded@ == normalize_ws(line@.take(k as int)),
        decreases ln - k,
    {
        let b = line[k];
        let f: u8 = if b == 9 || b == 11 || b == 12 || b == 13 {
            32
        } else {
            b
        };
        folded.push(f);
        proof {
            assert(normalize_ws(line@.take(k as int + 1)) =~= normalize_ws(
                line@.take(k as int),
            ).push(normalize_ws_byte(line@[k as int])));
        }
        k = k + 1;
    }
    proof {
        assert(line@.take(ln as int) =~= line@);
    }
    let toks = split_bytes(&folded, 32);
    let ghost tv = toks@.map_values(|v: Vec<u8>| v@);
    let n = toks.len();
    let mut r: Vec<Vec<u8>> = Vec::new();
    let mut i: usize = 0;
    proof {
        assert(tv.take(0) =~= Seq::<Seq<u8>>::empty());
        assert(r@.map_values(|v: Vec<u8>| v@) =~= nonblank(tv.take(0)));
    }
    #[verifier::loop_isolation(false)]
    while i < n
        invariant
            0 <= i <= n,
            r@.map_values(|v: Vec<u8>| v@) == nonblank(tv.take(i as int)),
        decreases n - i,
    {
        let ghost pre = r@;
        if toks[i].len() > 0 {
            r.push(copy_bytes(&toks[i]));
        }
        proof {
            assert(tv.take(i as int + 1) =~= tv.take(i as int).push(tv[i as int]));
            assert(tv[i as int] == toks@[i as int]@);
            lemma_nonblank_push(tv.take(i as int), tv[i as int]);
            if tv[i as int].len() > 0 {
                assert(r@.map_values(|v: Vec<u8>| v@) =~= pre.map_values(|v: Vec<u8>| v@).push(
                    tv[i as int],
                ));
            }
        }
        i = i + 1;
    }
    proof {
        assert(tv.take(n as int) =~= tv);
    }
    r
}

/// Parse one script line into a placement; `None` for a blank line, an
/// unknown material, or a malformed directive.
pub fn parse_script_line(line: &Vec<u8>) -> (r: Option<Block>)
    ensures
        r == parse_line(line@),
{
    let ws = line_words(line);
    let ghost wv = ws@.map_values(|v: Vec<u8>| v@);
    if ws.len() == 0 {
        return None;
    }
    proof {
        assert(wv[0] == ws@[0]@);
    }
    let first = lower_bytes(&ws[0]);
    let tile = if token_is(&first, "dirt") {
        Tile::Dirt
    } else if token_is(&first, "tree") {
        Tile::Tree
    } else if token_is(&first, "spring") {
        Tile::Spring
    } else if token_is(&first, "platform") {
        Tile::Platform
    } else if token_is(&first, "collectable") {
        Tile::Collectable
    } else {
        proof {
            assert(parse_material(lower_seq(wv[0])) is None);
        }
        return None;
    };
    tile.parse(&ws, 1)
}

/// Parse a whole level script: one placement per well-formed non-blank line,
/// in order, and the count of malformed lines that were skipped.
pub fn parse_map(data: &Vec<u8>) -> (r: (MapData, usize))
    ensures
        r.0.blocks@ == parse_map_blocks(split_seq(data@, 10)),
        r.1 == skipped_lines(split_seq(data@, 10)),
{
    let lines = split_bytes(data, 10);
    let ghost lv = lines@.map_values(|v: Vec<u8>| v@);
    let n = lines.len();
    let mut blocks: Vec<Block> = Vec::new();
    let mut skipped: usize = 0;
    let mut i: usize = 0;
    proof {
        assert(lv.take(0) =~= Seq::<Seq<u8>>::empty());
    }
    #[verifier::loop_isolation(false)]
    while i < n
        invariant
            0 <= i <= n,
            blocks@ == parse_map_blocks(lv.take(i as int)),
            skipped == skipped_lines(lv.take(i as int)),
            skipped <= i,
        decreases n - i,
    {
        proof {
            assert(lv[i as int] == lines@[i as int]@);
            assert(lv.take(i as int + 1) =~= lv.take(i as int).push(lv[i as int]));
            lemma_parse_map_blocks_push(lv.take(i as int), lv[i as int]);
        }
        match parse_script_line(&lines[i]) {
            Some(b) => {
                blocks.push(b);
            },
            None => {
                let ws = line_words(&lines[i]);
                if ws.len() != 0 {
                    skipped = skipped + 1;
                }
            },
        }
        i = i + 1;
    }
    proof {
        assert(lv.take(n as int) =~= lv);
    }
    (MapData { blocks }, skipped)
}

} // verus!
