//! The catalog codec: save an ordered list of tile descriptors to a
//! line-oriented text form and load it back, losslessly.
//!
//! Each descriptor takes two newline-terminated lines. The first holds
//! space-separated tokens: priority, material, team, the two 8-bit masks as
//! strings of `0`/`1`, the variant count, then one atlas index per variant.
//! The second line is the descriptor's raw name.

use vstd::prelude::*;

use crate::bytes::{
    append_bytes, contains_byte, copy_bytes, is_digit, join_bytes, join_seq,
    lemma_parse_print_int, lemma_print_int_bytes, lemma_split_join, lemma_terminated_is_join,
    lemma_terminated_push, parse_i64, parse_int_spec, parse_nat_spec, parse_u64_from, print_i64,
    print_int, print_nat, print_u64, push_str_bytes, split_bytes, split_seq, str_bytes,
    terminated, token_is,
};
use crate::descriptor::{DescriptorView, TileDescriptor};
use crate::tiles::{sprite_of_index, sprite_of_index_spec, Team, Tile, TileSprite};

verus! {

/// Why a catalog failed to save or load.
#[derive(Clone, Copy, PartialEq, Eq, Structural, Debug)]
pub enum CatalogError {
    /// The input is not a well-formed catalog serialization.
    Malformed,
    /// A descriptor name holds a newline and cannot be written losslessly.
    UnserializableName,
}

/// The views of a catalog's descriptors.
pub open spec fn catalog_views(c: Seq<TileDescriptor>) -> Seq<DescriptorView> {
    c.map_values(|d: TileDescriptor| d@)
}

/// The keyword of a material.
pub open spec fn material_token(t: Tile) -> Seq<u8> {
    match t {
        Tile::Dirt => str_bytes("dirt"@),
        Tile::Tree => str_bytes("tree"@),
        Tile::Spring => str_bytes("spring"@),
        Tile::Platform => str_bytes("platform"@),
        Tile::Collectable => str_bytes("collectable"@),
    }
}

/// The material of a keyword.
pub open spec fn parse_material(s: Seq<u8>) -> Option<Tile> {
    if s == str_bytes("dirt"@) {
        Some(Tile::Dirt)
    } else if s == str_bytes("tree"@) {
        Some(Tile::Tree)
    } else if s == str_bytes("spring"@) {
        Some(Tile::Spring)
    } else if s == str_bytes("platform"@) {
        Some(Tile::Platform)
    } else if s == str_bytes("collectable"@) {
        Some(Tile::Collectable)
    } else {
        None
    }
}

/// The keyword of a team filter.
pub open spec fn team_token(t: Team) -> Seq<u8> {
    match t {
        Team::Yellow => str_bytes("yellow"@),
        Team::Pink => str_bytes("pink"@),
        Team::Any => str_bytes("any"@),
        Team::Neutral => str_bytes("neutral"@),
    }
}

/// The team filter of a keyword.
pub open spec fn parse_team(s: Seq<u8>) -> Option<Team> {
    if s == str_bytes("yellow"@) {
        Some(Team::Yellow)
    } else if s == str_bytes("pink"@) {
        Some(Team::Pink)
    } else if s == str_bytes("any"@) {
        Some(Team::Any)
    } else if s == str_bytes("neutral"@) {
        Some(Team::Neutral)
    } else {
        None
    }
}

/// An 8-direction mask as eight `0`/`1` bytes.
pub open spec fn mask_token(m: Seq<bool>) -> Seq<u8> {
    Seq::new(8, |i: int| if m[i] { 49u8 } else { 48u8 })
}

/// The mask of a token of eight `0`/`1` bytes.
pub open spec fn parse_mask(s: Seq<u8>) -> Option<Seq<bool>> {
    if s.len() == 8 && (forall|i: int| 0 <= i < 8 ==> (#[trigger] s[i] == 48 || s[i] == 49)) {
        Some(Seq::new(8, |i: int| s[i] == 49))
    } else {
        None
    }
}

/// A descriptor priority as a signed numeral.
pub open spec fn parse_priority(s: Seq<u8>) -> Option<i8> {
    match parse_int_spec(s) {
        Some(v) => if -128 <= v <= 127 {
            Some(v as i8)
        } else {
            None
        },
        None => None,
    }
}

/// A sprite as the numeral of its atlas index.
pub open spec fn parse_sprite(s: Seq<u8>) -> Option<TileSprite> {
    match parse_int_spec(s) {
        Some(v) => sprite_of_index_spec(v),
        None => None,
    }
}

/// One numeral token per variant, in list order.
pub open spec fn variant_tokens(vs: Seq<TileSprite>) -> Seq<Seq<u8>> {
    vs.map_values(|v: TileSprite| print_int(v.atlas_index_spec()))
}

/// The sprites of a list of numeral tokens, or `None` if any fails.
pub open spec fn parse_variant_tokens(toks: Seq<Seq<u8>>) -> Option<Seq<TileSprite>>
    decreases toks.len(),
{
    if toks.len() == 0 {
        Some(Seq::empty())
    } else {
        match parse_sprite(toks[0]) {
            Some(v) => match parse_variant_tokens(toks.drop_first()) {
                Some(rest) => Some(seq![v] + rest),
                None => None,
            },
            None => None,
        }
    }
}

/// The tokens of a descriptor's rule line.
pub open spec fn rule_tokens(d: DescriptorView) -> Seq<Seq<u8>> {
    seq![
        print_int(d.priority as int),
        material_token(d.tile),
        team_token(d.team),
        mask_token(d.can_be_solid),
        mask_token(d.must_be_solid),
        print_int(d.variants.len() as int),
    ] + variant_tokens(d.variants)
}

/// The two lines of a descriptor: its rule line and its raw name.
pub open spec fn descriptor_lines(d: DescriptorView) -> Seq<Seq<u8>> {
    seq![join_seq(rule_tokens(d), 32), d.name]
}

/// All lines of a catalog, two per descriptor, in order.
pub open spec fn catalog_lines(c: Seq<DescriptorView>) -> Seq<Seq<u8>>
    decreases c.len(),
{
    if c.len() == 0 {
        Seq::empty()
    } else {
        descriptor_lines(c[0]) + catalog_lines(c.drop_first())
    }
}

/// The serialized catalog: every line newline-terminated.
pub open spec fn print_catalog(c: Seq<DescriptorView>) -> Seq<u8> {
    terminated(catalog_lines(c), 10)
}

/// A descriptor's view parsed back from its two lines.
pub open spec fn parse_rule_line(line: Seq<u8>, name: Seq<u8>) -> Option<DescriptorView> {
    let toks = split_seq(line, 32);
    if toks.len() < 6 {
        None
    } else if parse_priority(toks[0]) is None {
        None
    } else if parse_material(toks[1]) is None {
        None
    } else if parse_team(toks[2]) is None {
        None
    } else if parse_mask(toks[3]) is None {
        None
    } else if parse_mask(toks[4]) is None {
        None
    } else if parse_nat_spec(toks[5]) is None {
        None
    } else if toks.len() != 6 + parse_nat_spec(toks[5]).unwrap() {
        None
    } else {
        match parse_variant_tokens(toks.skip(6)) {
            Some(vs) => Some(
                DescriptorView {
                    name,
                    priority: parse_priority(toks[0]).unwrap(),
                    tile: parse_material(toks[1]).unwrap(),
                    team: parse_team(toks[2]).unwrap(),
                    can_be_solid: parse_mask(toks[3]).unwrap(),
                    must_be_solid: parse_mask(toks[4]).unwrap(),
                    variants: vs,
                },
            ),
            None => None,
        }
    }
}

/// The descriptors of an even list of lines, rule line then name line each.
pub open spec fn parse_desc_lines(lines: Seq<Seq<u8>>) -> Option<Seq<DescriptorView>>
    decreases lines.len(),
{
    if lines.len() == 0 {
        Some(Seq::empty())
    } else if lines.len() == 1 {
        None
    } else {
        match parse_rule_line(lines[0], lines[1]) {
            Some(d) => match parse_desc_lines(lines.skip(2)) {
                Some(rest) => Some(seq![d] + rest),
                None => None,
            },
            None => None,
        }
    }
}

/// The catalog of a serialization: the input must split into
/// newline-terminated lines that pair up into descriptors.
pub open spec fn parse_catalog(s: Seq<u8>) -> Option<Seq<DescriptorView>> {
    let lines = split_seq(s, 10);
    if lines.len() >= 1 && lines.last() == Seq::<u8>::empty() {
        parse_desc_lines(lines.drop_last())
    } else {
        None
    }
}

/// What the codec needs of a descriptor view to serialize it losslessly: the
/// masks have one entry per direction, the name has no newline, and the
/// variant list is addressable.
pub open spec fn view_wf(d: DescriptorView) -> bool {
    &&& d.can_be_solid.len() == 8
    &&& d.must_be_solid.len() == 8
    &&& !d.name.contains(10u8)
    &&& d.variants.len() <= u64::MAX
}

/// Whether a token is free of the space and newline separators.
pub open spec fn token_clean(t: Seq<u8>) -> bool {
    !t.contains(32u8) && !t.contains(10u8)
}

/// A printed signed numeral holds only digits and the minus sign, so it is
/// free of separators.
proof fn lemma_print_int_clean(v: int)
    ensures
        token_clean(print_int(v)),
        print_int(v).len() >= 1,
{
    lemma_print_int_bytes(v);
    if print_int(v).contains(32u8) {
        let w = choose|w: int| 0 <= w < print_int(v).len() && print_int(v)[w] == 32;
        assert(print_int(v)[w] == 45 || is_digit(print_int(v)[w]));
    }
    if print_int(v).contains(10u8) {
        let w = choose|w: int| 0 <= w < print_int(v).len() && print_int(v)[w] == 10;
        assert(print_int(v)[w] == 45 || is_digit(print_int(v)[w]));
    }
}

/// Material keywords read back as their material and are free of separators.
proof fn lemma_material_token(t: Tile)
    ensures
        parse_material(material_token(t)) == Some(t),
        token_clean(material_token(t)),
{
    reveal_strlit("dirt");
    reveal_strlit("tree");
    reveal_strlit("spring");
    reveal_strlit("platform");
    reveal_strlit("collectable");
    assert(str_bytes("dirt"@)[0] == 100);
    assert(str_bytes("tree"@)[0] == 116);
    assert(str_bytes("spring"@)[0] == 115);
    assert(str_bytes("platform"@)[0] == 112);
    assert(str_bytes("collectable"@)[0] == 99);
    let s = material_token(t);
    assert forall|w: int| 0 <= w < s.len() implies s[w] != 32 && s[w] != 10 by {
        match t {
            Tile::Dirt => { assert(s[w] == ("dirt"@)[w] as u8); },
            Tile::Tree => { assert(s[w] == ("tree"@)[w] as u8); },
            Tile::Spring => { assert(s[w] == ("spring"@)[w] as u8); },
            Tile::Platform => { assert(s[w] == ("platform"@)[w] as u8); },
            Tile::Collectable => { assert(s[w] == ("collectable"@)[w] as u8); },
        }
    }
    if s.contains(32u8) {
        let w = choose|w: int| 0 <= w < s.len() && s[w] == 32;
    }
    if s.contains(10u8) {
        let w = choose|w: int| 0 <= w < s.len() && s[w] == 10;
    }
}

/// Team keywords read back as their team and are free of separators.
proof fn lemma_team_token(t: Team)
    ensures
        parse_team(team_token(t)) == Some(t),
        token_clean(team_token(t)),
{
    reveal_strlit("yellow");
    reveal_strlit("pink");
    reveal_strlit("any");
    reveal_strlit("neutral");
    assert(str_bytes("yellow"@)[0] == 121);
    assert(str_bytes("pink"@)[0] == 112);
    assert(str_bytes("any"@)[0] == 97);
    assert(str_bytes("neutral"@)[0] == 110);
    let s = team_token(t);
    assert forall|w: int| 0 <= w < s.len() implies s[w] != 32 && s[w] != 10 by {
        match t {
            Team::Yellow => { assert(s[w] == ("yellow"@)[w] as u8); },
            Team::Pink => { assert(s[w] == ("pink"@)[w] as u8); },
            Team::Any => { assert(s[w] == ("any"@)[w] as u8); },
            Team::Neutral => { assert(s[w] == ("neutral"@)[w] as u8); },
        }
    }
    if s.contains(32u8) {
        let w = choose|w: int| 0 <= w < s.len() && s[w] == 32;
    }
    if s.contains(10u8) {
        let w = choose|w: int| 0 <= w < s.len() && s[w] == 10;
    }
}

/// Mask tokens read back as their mask and are free of separators.
proof fn lemma_mask_token(m: Seq<bool>)
    requires
        m.len() == 8,
    ensures
        parse_mask(mask_token(m)) == Some(m),
        token_clean(mask_token(m)),
{
    let s = mask_token(m);
    assert(forall|i: int| 0 <= i < 8 ==> (#[trigger] s[i] == 48 || s[i] == 49));
    assert(parse_mask(s).unwrap() =~= m);
    if s.contains(32u8) {
        let w = choose|w: int| 0 <= w < s.len() && s[w] == 32;
    }
    if s.contains(10u8) {
        let w = choose|w: int| 0 <= w < s.len() && s[w] == 10;
    }
}

/// Variant tokens read back as the variant list.
proof fn lemma_variant_tokens(vs: Seq<TileSprite>)
    ensures
        parse_variant_tokens(variant_tokens(vs)) == Some(vs),
        forall|i: int|
            0 <= i < variant_tokens(vs).len() ==> token_clean(#[trigger] variant_tokens(vs)[i]),
    decreases vs.len(),
{
    let toks = variant_tokens(vs);
    assert forall|i: int| 0 <= i < toks.len() implies token_clean(#[trigger] toks[i]) by {
        lemma_print_int_clean(vs[i].atlas_index_spec());
    }
    if vs.len() > 0 {
        let v = vs[0];
        crate::tiles::lemma_sprite_index_round_trip(v);
        lemma_parse_print_int(v.atlas_index_spec());
        assert(parse_sprite(toks[0]) == Some(v));
        lemma_variant_tokens(vs.drop_first());
        assert(toks.drop_first() =~= variant_tokens(vs.drop_first()));
        assert(seq![v] + vs.drop_first() =~= vs);
    }
}

/// A descriptor's rule line and name line read back as the descriptor.
proof fn lemma_rule_line_round_trip(d: DescriptorView)
    requires
        view_wf(d),
    ensures
        parse_rule_line(join_seq(rule_tokens(d), 32), d.name) == Some(d),
        !join_seq(rule_tokens(d), 32).contains(10u8),
{
    let toks = rule_tokens(d);
    lemma_print_int_clean(d.priority as int);
    lemma_material_token(d.tile);
    lemma_team_token(d.team);
    lemma_mask_token(d.can_be_solid);
    lemma_mask_token(d.must_be_solid);
    lemma_print_int_clean(d.variants.len() as int);
    lemma_variant_tokens(d.variants);
    assert forall|i: int| 0 <= i < toks.len() implies token_clean(#[trigger] toks[i]) by {
        if i >= 6 {
            assert(toks[i] == variant_tokens(d.variants)[i - 6]);
        }
    }
    assert(forall|i: int| 0 <= i < toks.len() ==> !(#[trigger] toks[i]).contains(32u8));
    lemma_split_join(toks, 32);
    let line = join_seq(toks, 32);
    assert(split_seq(line, 32) == toks);
    lemma_parse_print_int(d.priority as int);
    assert(parse_priority(toks[0]) == Some(d.priority));
    lemma_parse_print_int(d.variants.len() as int);
    assert(parse_nat_spec(toks[5]) == Some(d.variants.len() as u64)) by {
        assert(toks[5] == print_int(d.variants.len() as int));
        assert(parse_int_spec(toks[5]) == Some(d.variants.len() as int));
        assert(toks[5].len() >= 1);
        if toks[5][0] == 45 || toks[5][0] == 43 {
            assert(is_digit(toks[5][0])) by {
                lemma_print_int_bytes(d.variants.len() as int);
                crate::bytes::lemma_print_nat_wf(d.variants.len() as nat);
            }
        }
    }
    assert(toks.skip(6) =~= variant_tokens(d.variants));
    assert(toks.len() == 6 + d.variants.len());
    let got = parse_rule_line(line, d.name);
    assert(got matches Some(g) && g == d) by {
        let g = got.unwrap();
        assert(g.name == d.name);
        assert(g.priority == d.priority);
        assert(g.tile == d.tile);
        assert(g.team == d.team);
        assert(g.can_be_solid == d.can_be_solid);
        assert(g.must_be_solid == d.must_be_solid);
        assert(g.variants == d.variants);
    }
    // the rule line holds only token bytes and spaces, so no newline
    lemma_join_no_byte(toks, 32, 10);
}

/// A join of tokens free of byte `b` (itself not the separator) is free of
/// `b`.
proof fn lemma_join_no_byte(parts: Seq<Seq<u8>>, sep: u8, b: u8)
    requires
        b != sep,
        forall|i: int| 0 <= i < parts.len() ==> !(#[trigger] parts[i]).contains(b),
    ensures
        !join_seq(parts, sep).contains(b),
    decreases parts.len(),
{
    if parts.len() == 0 {
    } else if parts.len() == 1 {
        assert(join_seq(parts, sep) == parts[0]);
    } else {
        assert(forall|i: int|
            0 <= i < parts.drop_first().len() ==> parts.drop_first()[i] == parts[i + 1]);
        lemma_join_no_byte(parts.drop_first(), sep, b);
        let j = join_seq(parts, sep);
        if j.contains(b) {
            let w = choose|w: int| 0 <= w < j.len() && j[w] == b;
            if w < parts[0].len() {
                assert(parts[0][w] == b);
            } else if w > parts[0].len() {
                assert(join_seq(parts.drop_first(), sep)[w - parts[0].len() - 1] == b);
            }
        }
    }
}

/// The lines of one more descriptor go at the back.
proof fn lemma_catalog_lines_push(c: Seq<DescriptorView>, d: DescriptorView)
    ensures
        catalog_lines(c.push(d)) == catalog_lines(c) + descriptor_lines(d),
    decreases c.len(),
{
    if c.len() == 0 {
        assert(c.push(d).drop_first() =~= Seq::<DescriptorView>::empty());
        assert(catalog_lines(Seq::<DescriptorView>::empty()) =~= Seq::<Seq<u8>>::empty());
        assert(c.push(d)[0] == d);
        assert(catalog_lines(c.push(d)) =~= catalog_lines(c) + descriptor_lines(d));
    } else {
        assert(c.push(d).drop_first() =~= c.drop_first().push(d));
        lemma_catalog_lines_push(c.drop_first(), d);
        assert(c.push(d)[0] == c[0]);
        assert(catalog_lines(c.push(d)) =~= catalog_lines(c) + descriptor_lines(d));
    }
}

/// Every line of a catalog is free of newlines.
proof fn lemma_catalog_lines_clean(c: Seq<DescriptorView>)
    requires
        forall|i: int| 0 <= i < c.len() ==> view_wf(#[trigger] c[i]),
    ensures
        catalog_lines(c).len() == 2 * c.len(),
        forall|i: int|
            0 <= i < catalog_lines(c).len() ==> !(#[trigger] catalog_lines(c)[i]).contains(10u8),
    decreases c.len(),
{
    if c.len() > 0 {
        lemma_rule_line_round_trip(c[0]);
        assert(forall|i: int| 0 <= i < c.drop_first().len() ==> c.drop_first()[i] == c[i + 1]);
        lemma_catalog_lines_clean(c.drop_first());
        let ls = catalog_lines(c);
        assert forall|i: int| 0 <= i < ls.len() implies !(#[trigger] ls[i]).contains(10u8) by {
            if i >= 2 {
                assert(ls[i] == catalog_lines(c.drop_first())[i - 2]);
            } else if i == 1 {
                assert(ls[1] == c[0].name);
            } else {
                assert(ls[0] == join_seq(rule_tokens(c[0]), 32));
            }
        }
    }
}

/// The descriptor lines of a catalog read back as the catalog.
proof fn lemma_parse_desc_lines(c: Seq<DescriptorView>)
    requires
        forall|i: int| 0 <= i < c.len() ==> view_wf(#[trigger] c[i]),
    ensures
        parse_desc_lines(catalog_lines(c)) == Some(c),
    decreases c.len(),
{
    if c.len() == 0 {
        assert(catalog_lines(c).len() == 0);
    } else {
        let ls = catalog_lines(c);
        lemma_rule_line_round_trip(c[0]);
        assert(ls[0] == join_seq(rule_tokens(c[0]), 32));
        assert(ls[1] == c[0].name);
        assert(forall|i: int| 0 <= i < c.drop_first().len() ==> c.drop_first()[i] == c[i + 1]);
        lemma_parse_desc_lines(c.drop_first());
        assert(ls.skip(2) =~= catalog_lines(c.drop_first()));
        assert(seq![c[0]] + c.drop_first() =~= c);
    }
}

/// The keyword of a material.
fn material_keyword(t: Tile) -> (r: &'static str)
    ensures
        str_bytes(r@) == material_token(t),
{
    match t {
        Tile::Dirt => "dirt",
        Tile::Tree => "tree",
        Tile::Spring => "spring",
        Tile::Platform => "platform",
        Tile::Collectable => "collectable",
    }
}

/// The keyword of a team filter.
fn team_keyword(t: Team) -> (r: &'static str)
    ensures
        str_bytes(r@) == team_token(t),
{
    match t {
        Team::Yellow => "yellow",
        Team::Pink => "pink",
        Team::Any => "any",
        Team::Neutral => "neutral",
    }
}

/// The bytes of a keyword.
fn keyword_bytes(kw: &str) -> (r: Vec<u8>)
    ensures
        r@ == str_bytes(kw@),
{
    let mut v: Vec<u8> = Vec::new();
    push_str_bytes(&mut v, kw);
    v
}

/// A mask as eight `0`/`1` bytes.
fn mask_bytes(m: &[bool; 8]) -> (r: Vec<u8>)
    ensures
        r@ == mask_token(m@),
{
    let mut r: Vec<u8> = Vec::new();
    let mut i: usize = 0;
    while i < 8
        invariant
            0 <= i <= 8,
            r@.len() == i,
            forall|j: int| 0 <= j < i ==> r@[j] == (if m@[j] {
                49u8
            } else {
                48u8
            }),
        decreases 8 - i,
    {
        if m[i] {
            r.push(49);
        } else {
            r.push(48);
        }
        i = i + 1;
    }
    proof {
        assert(r@ =~= mask_token(m@));
    }
    r
}

/// Serialize a catalog: two newline-terminated lines per descriptor, in
/// order. Fails, touching nothing, exactly when some descriptor's name holds
/// a newline and so cannot be written losslessly.
pub fn save_catalog(catalog: &Vec<TileDescriptor>) -> (r: Result<Vec<u8>, CatalogError>)
    ensures
        r is Err <==> exists|i: int|
            0 <= i < catalog@.len() && (#[trigger] catalog@[i])@.name.contains(10u8),
        r matches Err(e) ==> e == CatalogError::UnserializableName,
        r matches Ok(out) ==> out@ == print_catalog(catalog_views(catalog@)),
{
    let ghost views = catalog_views(catalog@);
    let n = catalog.len();
    let mut out: Vec<u8> = Vec::new();
    let mut i: usize = 0;
    proof {
        assert(views.take(0) =~= Seq::<DescriptorView>::empty());
        assert(catalog_lines(Seq::<DescriptorView>::empty()) =~= Seq::<Seq<u8>>::empty());
    }
    while i < n
        invariant
            0 <= i <= n,
            n == catalog@.len(),
            views == catalog_views(catalog@),
            forall|j: int| 0 <= j < i ==> !(#[trigger] catalog@[j])@.name.contains(10u8),
            out@ == terminated(catalog_lines(views.take(i as int)), 10),
        decreases n - i,
    {
        let d = &catalog[i];
        if contains_byte(&d.name, 10) {
            return Err(CatalogError::UnserializableName);
        }
        let mut toks: Vec<Vec<u8>> = Vec::new();
        toks.push(print_i64(d.priority as i64));
        toks.push(keyword_bytes(material_keyword(d.tile)));
        toks.push(keyword_bytes(team_keyword(d.team)));
        toks.push(mask_bytes(&d.can_be_solid));
        toks.push(mask_bytes(&d.must_be_solid));
        toks.push(print_u64(d.variants.len() as u64));
        let m = d.variants.len();
        let mut k: usize = 0;
        while k < m
            invariant
                0 <= k <= m,
                m == d.variants@.len(),
                toks@.len() == 6 + k,
                toks@.map_values(|v: Vec<u8>| v@) == rule_tokens(d@).take(6 + k as int),
            decreases m - k,
        {
            let idx = d.variants[k].atlas_index();
            toks.push(print_u64(idx as u64));
            proof {
                assert(print_nat(idx as nat) == print_int(d.variants@[k as int].atlas_index_spec()));
                assert(rule_tokens(d@)[6 + k as int] == variant_tokens(d@.variants)[k as int]);
                assert(toks@.map_values(|v: Vec<u8>| v@) =~= rule_tokens(d@).take(
                    6 + k as int + 1,
                ));
            }
            k = k + 1;
        }
        proof {
            assert(rule_tokens(d@).take(6 + m as int) =~= rule_tokens(d@));
        }
        let mut line = join_bytes(&toks, 32);
        let ghost pre_lines = catalog_lines(views.take(i as int));
        out.append(&mut line);
        out.push(10);
        append_bytes(&mut out, &d.name);
        out.push(10);
        proof {
            let l1 = join_seq(rule_tokens(d@), 32);
            let l2 = d@.name;
            lemma_terminated_push(pre_lines, l1, 10);
            lemma_terminated_push(pre_lines.push(l1), l2, 10);
            assert(out@ =~= terminated(pre_lines.push(l1).push(l2), 10));
            assert(views.take(i as int + 1) =~= views.take(i as int).push(d@));
            lemma_catalog_lines_push(views.take(i as int), d@);
            assert(pre_lines.push(l1).push(l2) =~= catalog_lines(views.take(i as int + 1)));
        }
        i = i + 1;
    }
    proof {
        assert(views.take(n as int) =~= views);
    }
    Ok(out)
}

/// Parse a material keyword.
fn parse_material_token(t: &Vec<u8>) -> (r: Option<Tile>)
    ensures
        r == parse_material(t@),
{
    if token_is(t, "dirt") {
        Some(Tile::Dirt)
    } else if token_is(t, "tree") {
        Some(Tile::Tree)
    } else if token_is(t, "spring") {
        Some(Tile::Spring)
    } else if token_is(t, "platform") {
        Some(Tile::Platform)
    } else if token_is(t, "collectable") {
        Some(Tile::Collectable)
    } else {
        None
    }
}

/// Parse a team keyword.
fn parse_team_token(t: &Vec<u8>) -> (r: Option<Team>)
    ensures
        r == parse_team(t@),
{
    if token_is(t, "yellow") {
        Some(Team::Yellow)
    } else if token_is(t, "pink") {
        Some(Team::Pink)
    } else if token_is(t, "any") {
        Some(Team::Any)
    } else if token_is(t, "neutral") {
        Some(Team::Neutral)
    } else {
        None
    }
}

/// Parse a mask token of eight `0`/`1` bytes.
fn parse_mask_token(t: &Vec<u8>) -> (r: Option<[bool; 8]>)
    ensures
        match r {
            Some(m) => parse_mask(t@) == Some(m@),
            None => parse_mask(t@) is None,
        },
{
    if t.len() != 8 {
        return None;
    }
    let mut m: [bool; 8] = [false, false, false, false, false, false, false, false];
    let mut i: usize = 0;
    while i < 8
        invariant
            0 <= i <= 8,
            t@.len() == 8,
            forall|j: int| 0 <= j < i ==> (#[trigger] t@[j] == 48 || t@[j] == 49),
            forall|j: int| 0 <= j < i ==> #[trigger] m@[j] == (t@[j] == 49),
        decreases 8 - i,
    {
        let b = t[i];
        if b == 49 {
            m[i] = true;
        } else if b == 48 {
            m[i] = false;
        } else {
            return None;
        }
        i = i + 1;
    }
    proof {
        assert(m@ =~= parse_mask(t@).unwrap());
    }
    Some(m)
}

/// Parse a priority numeral.
fn parse_priority_token(t: &Vec<u8>) -> (r: Option<i8>)
    ensures
        r == parse_priority(t@),
{
    match parse_i64(t) {
        Some(v) => {
            if -128 <= v && v <= 127 {
                Some(v as i8)
            } else {
                None
            }
        },
        None => None,
    }
}

/// Parse a sprite's atlas-index numeral.
fn parse_sprite_token(t: &Vec<u8>) -> (r: Option<TileSprite>)
    ensures
        r == parse_sprite(t@),
{
    match parse_i64(t) {
        Some(v) => {
            if 0 <= v && v < 100 {
                sprite_of_index(v as usize)
            } else {
                None
            }
        },
        None => None,
    }
}

/// Parse one descriptor from its rule line and its (already copied) name
/// line.
fn parse_descriptor(line: &Vec<u8>, name: Vec<u8>) -> (r: Option<TileDescriptor>)
    ensures
        match r {
            Some(d) => parse_rule_line(line@, name@) == Some(d@),
            None => parse_rule_line(line@, name@) is None,
        },
{
    let toks = split_bytes(line, 32);
    let ghost tv = toks@.map_values(|v: Vec<u8>| v@);
    if toks.len() < 6 {
        return None;
    }
    proof {
        assert(tv[0] == toks@[0]@);
        assert(tv[1] == toks@[1]@);
        assert(tv[2] == toks@[2]@);
        assert(tv[3] == toks@[3]@);
        assert(tv[4] == toks@[4]@);
        assert(tv[5] == toks@[5]@);
    }
    let priority = match parse_priority_token(&toks[0]) {
        Some(p) => p,
        None => { return None },
    };
    let tile = match parse_material_token(&toks[1]) {
        Some(t) => t,
        None => { return None },
    };
    let team = match parse_team_token(&toks[2]) {
        Some(t) => t,
        None => { return None },
    };
    let can_be_solid = match parse_mask_token(&toks[3]) {
        Some(m) => m,
        None => { return None },
    };
    let must_be_solid = match parse_mask_token(&toks[4]) {
        Some(m) => m,
        None => { return None },
    };
    proof {
        assert(toks@[5]@.skip(0) =~= tv[5]);
    }
    let count = match parse_u64_from(&toks[5], 0) {
        Some(c) => c,
        None => { return None },
    };
    if ((toks.len() - 6) as u64) != count {
        return None;
    }
    let nt = toks.len();
    let mut variants: Vec<TileSprite> = Vec::new();
    let mut j: usize = 6;
    #[verifier::loop_isolation(false)]
    while j < nt
        invariant
            6 <= j <= nt,
            nt == tv.len(),
            tv == toks@.map_values(|v: Vec<u8>| v@),
            variants@.len() == j - 6,
            match parse_variant_tokens(tv.skip(j as int)) {
                Some(rest) => parse_variant_tokens(tv.skip(6)) == Some(variants@ + rest),
                None => parse_variant_tokens(tv.skip(6)) is None,
            },
        decreases nt - j,
    {
        proof {
            assert(tv.skip(j as int)[0] == tv[j as int]);
            assert(tv[j as int] == toks@[j as int]@);
            assert(tv.skip(j as int).drop_first() =~= tv.skip(j as int + 1));
        }
        let v = match parse_sprite_token(&toks[j]) {
            Some(v) => v,
            None => {
                proof {
                    assert(parse_variant_tokens(tv.skip(j as int)) is None);
                    assert(parse_variant_tokens(tv.skip(6)) is None);
                    assert(parse_rule_line(line@, name@) is None);
                }
                return None;
            },
        };
        let ghost pre = variants@;
        variants.push(v);
        proof {
            match parse_variant_tokens(tv.skip(j as int + 1)) {
                Some(rest) => {
                    assert(pre + (seq![v] + rest) =~= variants@ + rest);
                },
                None => {},
            }
        }
        j = j + 1;
    }
    proof {
        assert(tv.skip(nt as int) =~= Seq::<Seq<u8>>::empty());
    }
    let d = TileDescriptor { name, priority, tile, team, can_be_solid, must_be_solid, variants };
    proof {
        let g = parse_rule_line(line@, d.name@).unwrap();
        assert(g.name == d@.name);
        assert(g.priority == d@.priority);
        assert(g.tile == d@.tile);
        assert(g.team == d@.team);
        assert(g.can_be_solid == d@.can_be_solid);
        assert(g.must_be_solid == d@.must_be_solid);
        assert(g.variants == d@.variants);
    }
    Some(d)
}

/// Load a catalog from its serialization. Fails, installing nothing, exactly
/// when the input is not a well-formed catalog.
pub fn load_catalog(data: &Vec<u8>) -> (r: Result<Vec<TileDescriptor>, CatalogError>)
    ensures
        match parse_catalog(data@) {
            Some(views) => r matches Ok(cat) && catalog_views(cat@) == views,
            None => r matches Err(e) && e == CatalogError::Malformed,
        },
{
    let lines = split_bytes(data, 10);
    let ghost lv = lines@.map_values(|v: Vec<u8>| v@);
    let nl = lines.len();
    proof {
        assert(lv.len() >= 1);
        assert(lv.last() == lines@[nl - 1]@);
    }
    if lines[nl - 1].len() != 0 {
        proof {
            assert(lv.last() != Seq::<u8>::empty());
        }
        return Err(CatalogError::Malformed);
    }
    proof {
        assert(lv.last() =~= Seq::<u8>::empty());
    }
    let m = nl - 1;
    let ghost body = lv.drop_last();
    let mut cat: Vec<TileDescriptor> = Vec::new();
    let mut i: usize = 0;
    proof {
        assert(body.skip(0) =~= body);
        assert(catalog_views(cat@) =~= Seq::<DescriptorView>::empty());
    }
    #[verifier::loop_isolation(false)]
    while i < m
        invariant
            0 <= i <= m,
            m == nl - 1,
            nl == lines@.len(),
            nl >= 1,
            lv == lines@.map_values(|v: Vec<u8>| v@),
            body == lv.drop_last(),
            body.len() == m,
            match parse_desc_lines(body.skip(i as int)) {
                Some(rest) => parse_desc_lines(body) == Some(catalog_views(cat@) + rest),
                None => parse_desc_lines(body) is None,
            },
        decreases m - i,
    {
        proof {
            assert(body.skip(i as int)[0] == body[i as int]);
            assert(body[i as int] == lv[i as int]);
        }
        if i + 1 == m {
            proof {
                assert(body.skip(i as int).len() == 1);
                assert(parse_desc_lines(body.skip(i as int)) is None);
                assert(parse_desc_lines(body) is None);
                assert(parse_catalog(data@) is None);
            }
            return Err(CatalogError::Malformed);
        }
        proof {
            assert(body.skip(i as int)[1] == body[i as int + 1]);
            assert(body[i as int + 1] == lv[i as int + 1]);
            assert(lv[i as int] == lines@[i as int]@);
            assert(lv[i as int + 1] == lines@[i as int + 1]@);
            assert(body.skip(i as int).skip(2) =~= body.skip(i as int + 2));
        }
        let name = copy_bytes(&lines[i + 1]);
        let d = match parse_descriptor(&lines[i], name) {
            Some(d) => d,
            None => {
                proof {
                    assert(parse_rule_line(body[i as int], body[i as int + 1]) is None);
                    assert(parse_desc_lines(body.skip(i as int)) is None);
                    assert(parse_desc_lines(body) is None);
                    assert(parse_catalog(data@) is None);
                }
                return Err(CatalogError::Malformed);
            },
        };
        let ghost pre = catalog_views(cat@);
        cat.push(d);
        proof {
            assert(catalog_views(cat@) =~= pre.push(d@));
            match parse_desc_lines(body.skip(i as int + 2)) {
                Some(rest) => {
                    assert(pre + (seq![d@] + rest) =~= catalog_views(cat@) + rest);
                },
                None => {},
            }
        }
        i = i + 2;
    }
    proof {
        assert(body.skip(m as int) =~= Seq::<Seq<u8>>::empty());
        assert(catalog_views(cat@) + Seq::<DescriptorView>::empty() =~= catalog_views(cat@));
        assert(parse_desc_lines(body) == Some(catalog_views(cat@)));
    }
    Ok(cat)
}

/// Saving a catalog and loading it back reproduces every descriptor exactly:
/// the same priority, material, team, masks, variant list and name, in the
/// same order.
pub proof fn lemma_catalog_round_trip(c: Seq<DescriptorView>)
    requires
        forall|i: int| 0 <= i < c.len() ==> view_wf(#[trigger] c[i]),
    ensures
        parse_catalog(print_catalog(c)) == Some(c),
{
    let ls = catalog_lines(c);
    lemma_catalog_lines_clean(c);
    lemma_terminated_is_join(ls, 10);
    let parts = ls.push(Seq::<u8>::empty());
    assert forall|i: int| 0 <= i < parts.len() implies !(#[trigger] parts[i]).contains(10u8) by {
        if i < ls.len() {
            assert(parts[i] == ls[i]);
        } else {
            assert(parts[i] =~= Seq::<u8>::empty());
        }
    }
    lemma_split_join(parts, 10);
    assert(split_seq(print_catalog(c), 10) == parts);
    assert(parts.last() =~= Seq::<u8>::empty());
    assert(parts.drop_last() =~= ls);
    lemma_parse_desc_lines(c);
}

} // verus!
