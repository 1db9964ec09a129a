//! The selector: turns a user request (explicit name, random by
//! generation, or random by name list) into one concrete
//! (display name, shiny, size) tuple, validating along the way.

use crate::catalog::{spec_find, Catalog};
use crate::generations::{range_for, spec_range_for};
use crate::rng::{rand_id, rand_index, rand_ratio};
use crate::text::{
    find_char, is_u8_numeral, parse_u8, seq_views, spec_has_char, split_on, split_seq,
    u8_numeral_val,
};
use crate::Error;
use vstd::prelude::*;
use vstd::string::StringExecFns;

verus! {

/// Numerator of the fixed shiny encounter probability.
pub const SHINY_NUMERATOR: u32 = 1;

/// Denominator of the fixed shiny encounter probability.
pub const SHINY_DENOMINATOR: u32 = 128;

/// A fully resolved request: the display name (form suffix already
/// applied) together with the shiny and size choices. It determines the
/// asset store key.
#[derive(Debug, Clone)]
pub struct ResolvedAsset {
    pub display_name: String,
    pub is_shiny: bool,
    pub is_large: bool,
}

/// The resolved shiny choice: the explicit flag, or else a Bernoulli
/// draw with probability `SHINY_NUMERATOR / SHINY_DENOMINATOR`.
pub fn decide_shiny(rng: &mut rand::rngs::ThreadRng, explicit: bool) -> (r: bool)
    ensures
        explicit ==> r,
{
    if explicit {
        true
    } else {
        rand_ratio(rng, SHINY_NUMERATOR, SHINY_DENOMINATOR)
    }
}

/// The forms of an entry with the sentinel "regular" filtered out, in
/// their original order.
pub open spec fn spec_alternate_forms(forms: Seq<Seq<char>>) -> Seq<Seq<char>>
    decreases forms.len(),
{
    if forms.len() == 0 {
        Seq::empty()
    } else {
        let front = spec_alternate_forms(forms.drop_last());
        if forms.last() == "regular"@ {
            front
        } else {
            front.push(forms.last())
        }
    }
}

/// The alternate forms of `forms`: every form except the literal
/// "regular", in order.
pub fn alternate_forms(forms: &Vec<String>) -> (r: Vec<String>)
    ensures
        seq_views(r@) =~~= spec_alternate_forms(seq_views(forms@)),
{
    let n = forms.len();
    let mut out: Vec<String> = Vec::new();
    let mut i: usize = 0;
    while i < n
        invariant
            i <= n,
            n == forms@.len(),
            seq_views(out@) =~~= spec_alternate_forms(seq_views(forms@).take(i as int)),
        decreases n - i,
    {
        proof {
            assert(seq_views(forms@).take(i + 1).drop_last() =~= seq_views(forms@).take(i as int));
            assert(seq_views(forms@).take(i + 1).last() == forms@[i as int]@);
        }
        if !crate::text::str_eq(forms[i].as_str(), "regular") {
            out.push(forms[i].clone());
        }
        i += 1;
    }
    proof {
        assert(seq_views(forms@).take(n as int) =~= seq_views(forms@));
    }
    out
}

/// Resolves an explicit name request. Succeeds exactly when the name is
/// in the catalog and, if a form was asked for, that form is among the
/// entry's alternate forms; the display name then carries the "-form"
/// suffix. `UnknownForm` carries the valid alternates for the caller to
/// report.
pub fn resolve_explicit(
    catalog: &Catalog,
    name: &str,
    form: Option<&str>,
    shiny_flag: bool,
    large: bool,
    rng: &mut rand::rngs::ThreadRng,
) -> (r: Result<ResolvedAsset, Error>)
    ensures
        ({
            let idx = spec_find(catalog.names(), name@);
            &&& (r is Ok <==> idx >= 0 && (form matches Some(f) ==> spec_alternate_forms(
                seq_views(catalog.entries@[idx].forms@),
            ).contains(f@)))
            &&& match r {
                Ok(ra) => {
                    &&& ra.is_large == large
                    &&& (shiny_flag ==> ra.is_shiny)
                    &&& match form {
                        None => ra.display_name@ == name@,
                        Some(f) => ra.display_name@ == name@ + "-"@ + f@,
                    }
                },
                Err(e) => match e {
                    Error::UnknownPokemon => idx == -1,
                    Error::UnknownForm { alternatives } => idx >= 0 && (form matches Some(f)
                        && !spec_alternate_forms(seq_views(catalog.entries@[idx].forms@)).contains(
                        f@,
                    )) && seq_views(alternatives@) == spec_alternate_forms(
                        seq_views(catalog.entries@[idx].forms@),
                    ),
                    _ => false,
                },
            }
        }),
{
    let i = match catalog.find(name) {
        Some(i) => i,
        None => {
            return Err(Error::UnknownPokemon);
        },
    };
    let display: String = match form {
        None => String::from_str(name),
        Some(f) => {
            let alts = alternate_forms(&catalog.entries[i].forms);
            if crate::text::contains_str(&alts, f) {
                let d = String::from_str(name).concat("-").concat(f);
                proof {
                    assert(d@ =~= name@ + "-"@ + f@);
                }
                d
            } else {
                return Err(Error::UnknownForm { alternatives: alts });
            }
        },
    };
    let shiny = decide_shiny(rng, shiny_flag);
    Ok(ResolvedAsset { display_name: display, is_shiny: shiny, is_large: large })
}

/// A parsed generation spec: a single generation, a dash range, or a
/// comma list to pick one generation from.
#[derive(Debug)]
pub enum GenSpec {
    Single(u8),
    Range(u8, u8),
    List(Vec<u8>),
}

/// The generation numbers kept from a comma list: the values of the
/// pieces that parse as `u8`, in order.
pub open spec fn kept_gens(parts: Seq<Seq<char>>) -> Seq<u8>
    decreases parts.len(),
{
    if parts.len() == 0 {
        Seq::empty()
    } else {
        let front = kept_gens(parts.drop_last());
        if is_u8_numeral(parts.last()) {
            front.push(u8_numeral_val(parts.last()) as u8)
        } else {
            front
        }
    }
}

/// Whether a generation spec string parses: a comma list with at least
/// one `u8` piece, a dash range whose first two pieces are `u8`s, or a
/// single `u8`.
pub open spec fn spec_parse_ok(s: Seq<char>) -> bool {
    if spec_has_char(s, ',') {
        kept_gens(split_seq(s, ',')).len() > 0
    } else if spec_has_char(s, '-') {
        let p = split_seq(s, '-');
        is_u8_numeral(p[0]) && is_u8_numeral(p[1])
    } else {
        is_u8_numeral(s)
    }
}

/// Parses a generation spec string. Comma wins over dash; pieces of a
/// comma list that do not parse are dropped; only the first two pieces
/// of a dash range count.
pub fn parse_generation_spec(s: &str) -> (r: Result<GenSpec, Error>)
    ensures
        match r {
            Ok(gs) => match gs {
                GenSpec::List(v) => spec_has_char(s@, ',') && v@ == kept_gens(split_seq(s@, ','))
                    && v@.len() > 0,
                GenSpec::Range(a, b) => !spec_has_char(s@, ',') && spec_has_char(s@, '-') && ({
                    let p = split_seq(s@, '-');
                    is_u8_numeral(p[0]) && is_u8_numeral(p[1]) && a as int == u8_numeral_val(p[0])
                        && b as int == u8_numeral_val(p[1])
                }),
                GenSpec::Single(g) => !spec_has_char(s@, ',') && !spec_has_char(s@, '-')
                    && is_u8_numeral(s@) && g as int == u8_numeral_val(s@),
            },
            Err(e) => e == Error::InvalidGenerationFormat && !spec_parse_ok(s@),
        },
{
    if crate::text::has_char(s, ',') {
        let parts = split_on(s, ',');
        let n = parts.len();
        let mut gens: Vec<u8> = Vec::new();
        let mut i: usize = 0;
        while i < n
            invariant
                i <= n,
                n == parts@.len(),
                seq_views(parts@) == split_seq(s@, ','),
                gens@ == kept_gens(seq_views(parts@).take(i as int)),
            decreases n - i,
        {
            proof {
                assert(seq_views(parts@).take(i + 1).drop_last() =~= seq_views(parts@).take(
                    i as int,
                ));
                assert(seq_views(parts@).take(i + 1).last() == parts@[i as int]@);
            }
            match parse_u8(parts[i].as_str()) {
                Some(g) => {
                    proof {
                        crate::text::lemma_dec_val_nonneg(
                            crate::text::digits_of(parts@[i as int]@),
                        );
                    }
                    gens.push(g);
                },
                None => {},
            }
            i += 1;
        }
        proof {
            assert(seq_views(parts@).take(n as int) =~= seq_views(parts@));
        }
        if gens.len() == 0 {
            Err(Error::InvalidGenerationFormat)
        } else {
            Ok(GenSpec::List(gens))
        }
    } else {
        match find_char(s, '-') {
            Some(d) => {
                proof {
                    crate::text::lemma_split_seq_first_sep(s@, '-', d as int);
                    crate::text::lemma_split_seq_len(
                        s@.subrange(d + 1, s@.len() as int),
                        '-',
                    );
                }
                let parts = split_on(s, '-');
                assert(parts@.len() >= 2);
                let a = parse_u8(parts[0].as_str());
                let b = parse_u8(parts[1].as_str());
                match (a, b) {
                    (Some(x), Some(y)) => Ok(GenSpec::Range(x, y)),
                    _ => Err(Error::InvalidGenerationFormat),
                }
            },
            None => match parse_u8(s) {
                Some(g) => Ok(GenSpec::Single(g)),
                None => Err(Error::InvalidGenerationFormat),
            },
        }
    }
}

/// The (start, end) generation pairs a spec string can resolve to: a
/// comma list pins both ends to one listed generation, a dash range
/// takes its two endpoints, a single number pins both ends to it.
pub open spec fn spec_gen_pair_allowed(s: Seq<char>, sg: u8, eg: u8) -> bool {
    if spec_has_char(s, ',') {
        sg == eg && kept_gens(split_seq(s, ',')).contains(sg)
    } else if spec_has_char(s, '-') {
        let p = split_seq(s, '-');
        is_u8_numeral(p[0]) && is_u8_numeral(p[1]) && sg as int == u8_numeral_val(p[0])
            && eg as int == u8_numeral_val(p[1])
    } else {
        is_u8_numeral(s) && sg == eg && sg as int == u8_numeral_val(s)
    }
}

/// A spec string that resolves to a backwards range: both endpoints in
/// the generation table but the start after the end. Drawing from such a
/// range would panic, so the random resolver rules it out.
pub open spec fn spec_range_inverted(s: Seq<char>) -> bool {
    exists|sg: u8, eg: u8|
        spec_gen_pair_allowed(s, sg, eg) && spec_range_for(sg as int) is Some && spec_range_for(
            eg as int,
        ) is Some && sg > eg
}

/// Whether the spec string resolves to a backwards generation range;
/// callers test this before asking for a random draw.
pub fn generation_range_inverted(s: &str) -> (r: bool)
    ensures
        r == spec_range_inverted(s@),
{
    match parse_generation_spec(s) {
        Ok(GenSpec::Range(a, b)) => {
            let ra = range_for(a);
            let rb = range_for(b);
            let inv = ra.is_ok() && rb.is_ok() && a > b;
            proof {
                if inv {
                    assert(spec_gen_pair_allowed(s@, a, b));
                } else {
                    if spec_range_inverted(s@) {
                        let (sg, eg) = choose|sg: u8, eg: u8|
                            spec_gen_pair_allowed(s@, sg, eg) && spec_range_for(
                                sg as int,
                            ) is Some && spec_range_for(eg as int) is Some && sg > eg;
                        assert(sg == a && eg == b);
                    }
                }
            }
            inv
        },
        _ => {
            proof {
                if spec_range_inverted(s@) {
                    let (sg, eg) = choose|sg: u8, eg: u8|
                        spec_gen_pair_allowed(s@, sg, eg) && spec_range_for(sg as int) is Some
                            && spec_range_for(eg as int) is Some && sg > eg;
                    assert(false);
                }
            }
            false
        },
    }
}

/// What a successful random-by-generation draw means: some allowed
/// generation pair and some id inside its table range name the entry at
/// position id - 1.
pub open spec fn spec_drawn_from(s: Seq<char>, catalog: Catalog, name: Seq<char>) -> bool {
    exists|sg: u8, eg: u8, pos: int|
        #![trigger spec_gen_pair_allowed(s, sg, eg), catalog.entries@[pos]]
        spec_gen_pair_allowed(s, sg, eg) && spec_range_for(sg as int) is Some && spec_range_for(
            eg as int,
        ) is Some && spec_range_for(sg as int)->Some_0.0 <= pos + 1 <= spec_range_for(
            eg as int,
        )->Some_0.1 && 0 <= pos < catalog.entries@.len() && name == catalog.entries@[pos].name@
}

/// A draw from a spec without a comma has its endpoints pinned by the
/// string: the drawn name sits at a position whose 1-based id lies
/// between the start generation's first id and the end generation's
/// last id.
pub proof fn lemma_drawn_from_pinned(
    s: Seq<char>,
    a: u8,
    b: u8,
    catalog: Catalog,
    name: Seq<char>,
)
    requires
        !spec_has_char(s, ','),
        spec_gen_pair_allowed(s, a, b),
        spec_drawn_from(s, catalog, name),
    ensures
        spec_range_for(a as int) is Some,
        spec_range_for(b as int) is Some,
        exists|pos: int|
            #![trigger catalog.entries@[pos]]
            0 <= pos < catalog.entries@.len() && spec_range_for(a as int)->Some_0.0 <= pos + 1
                <= spec_range_for(b as int)->Some_0.1 && name == catalog.entries@[pos].name@,
{
    let (sg, eg, pos) = choose|sg: u8, eg: u8, pos: int|
        #![trigger spec_gen_pair_allowed(s, sg, eg), catalog.entries@[pos]]
        spec_gen_pair_allowed(s, sg, eg) && spec_range_for(sg as int) is Some && spec_range_for(
            eg as int,
        ) is Some && spec_range_for(sg as int)->Some_0.0 <= pos + 1 <= spec_range_for(
            eg as int,
        )->Some_0.1 && 0 <= pos < catalog.entries@.len() && name == catalog.entries@[pos].name@;
    assert(sg == a && eg == b);
}

/// A draw from a comma list stays inside one listed generation's range:
/// the ranges of different listed generations are never pooled.
pub proof fn lemma_drawn_from_list(s: Seq<char>, catalog: Catalog, name: Seq<char>)
    requires
        spec_has_char(s, ','),
        spec_drawn_from(s, catalog, name),
    ensures
        exists|g: u8, pos: int|
            #![trigger kept_gens(split_seq(s, ',')).contains(g), catalog.entries@[pos]]
            kept_gens(split_seq(s, ',')).contains(g) && spec_range_for(g as int) is Some && 0 <= pos
                < catalog.entries@.len() && spec_range_for(g as int)->Some_0.0 <= pos + 1
                <= spec_range_for(g as int)->Some_0.1 && name == catalog.entries@[pos].name@,
{
    let (sg, eg, pos) = choose|sg: u8, eg: u8, pos: int|
        #![trigger spec_gen_pair_allowed(s, sg, eg), catalog.entries@[pos]]
        spec_gen_pair_allowed(s, sg, eg) && spec_range_for(sg as int) is Some && spec_range_for(
            eg as int,
        ) is Some && spec_range_for(sg as int)->Some_0.0 <= pos + 1 <= spec_range_for(
            eg as int,
        )->Some_0.1 && 0 <= pos < catalog.entries@.len() && name == catalog.entries@[pos].name@;
    assert(sg == eg);
    assert(kept_gens(split_seq(s, ',')).contains(sg) && spec_range_for(sg as int) is Some && 0
        <= pos < catalog.entries@.len() && spec_range_for(sg as int)->Some_0.0 <= pos + 1
        <= spec_range_for(sg as int)->Some_0.1 && name == catalog.entries@[pos].name@);
}

/// Resolves a random-by-generation request: parses the spec string,
/// fixes a start and end generation (picking one at random from a comma
/// list), draws an id uniformly from the table range, and names the
/// catalog entry at that id.
pub fn resolve_random_by_generation(
    catalog: &Catalog,
    spec_str: &str,
    shiny_flag: bool,
    large: bool,
    rng: &mut rand::rngs::ThreadRng,
) -> (r: Result<ResolvedAsset, Error>)
    requires
        !spec_range_inverted(spec_str@),
    ensures
        match r {
            Ok(ra) => spec_drawn_from(spec_str@, *catalog, ra.display_name@) && ra.is_large
                == large && (shiny_flag ==> ra.is_shiny),
            Err(e) => match e {
                Error::InvalidGenerationFormat => !spec_parse_ok(spec_str@),
                Error::InvalidGeneration => exists|sg: u8, eg: u8|
                    spec_gen_pair_allowed(spec_str@, sg, eg) && (spec_range_for(sg as int) is None
                        || spec_range_for(eg as int) is None),
                Error::IndexOutOfBounds => exists|sg: u8, eg: u8|
                    spec_gen_pair_allowed(spec_str@, sg, eg) && spec_range_for(
                        sg as int,
                    ) is Some && spec_range_for(eg as int) is Some && spec_range_for(
                        eg as int,
                    )->Some_0.1 > catalog.entries@.len(),
                _ => false,
            },
        },
        (spec_parse_ok(spec_str@) && (forall|sg: u8, eg: u8|
            spec_gen_pair_allowed(spec_str@, sg, eg) ==> spec_range_for(sg as int) is Some
                && spec_range_for(eg as int) is Some && spec_range_for(eg as int)->Some_0.1
                <= catalog.entries@.len())) ==> r is Ok,
{
    let gs = match parse_generation_spec(spec_str) {
        Ok(g) => g,
        Err(e) => {
            return Err(e);
        },
    };
    let (sg, eg): (u8, u8) = match gs {
        GenSpec::Single(g) => (g, g),
        GenSpec::Range(a, b) => (a, b),
        GenSpec::List(v) => {
            let k = rand_index(rng, v.len());
            let g = v[k];
            proof {
                assert(kept_gens(split_seq(spec_str@, ','))[k as int] == g);
            }
            (g, g)
        },
    };
    assert(spec_gen_pair_allowed(spec_str@, sg, eg));
    let first = match range_for(sg) {
        Ok(p) => p.0,
        Err(_) => {
            return Err(Error::InvalidGeneration);
        },
    };
    let last = match range_for(eg) {
        Ok(p) => p.1,
        Err(_) => {
            return Err(Error::InvalidGeneration);
        },
    };
    proof {
        if sg > eg {
            assert(spec_range_inverted(spec_str@));
        }
        crate::generations::lemma_generation_ranges_ordered(sg as int, eg as int);
    }
    let id = rand_id(rng, first, last);
    let pos = (id - 1) as usize;
    if pos < catalog.entries.len() {
        let name = catalog.entries[pos].name.clone();
        let shiny = decide_shiny(rng, shiny_flag);
        proof {
            assert(spec_gen_pair_allowed(spec_str@, sg, eg) && spec_range_for(
                sg as int,
            ) is Some && spec_range_for(eg as int) is Some && spec_range_for(
                sg as int,
            )->Some_0.0 <= pos + 1 <= spec_range_for(eg as int)->Some_0.1 && 0 <= (pos as int)
                < catalog.entries@.len() && name@ == catalog.entries@[pos as int].name@);
        }
        Ok(ResolvedAsset { display_name: name, is_shiny: shiny, is_large: large })
    } else {
        proof {
            assert(spec_gen_pair_allowed(spec_str@, sg, eg) && spec_range_for(
                sg as int,
            ) is Some && spec_range_for(eg as int) is Some && spec_range_for(
                eg as int,
            )->Some_0.1 > catalog.entries@.len());
        }
        Err(Error::IndexOutOfBounds)
    }
}

/// The pieces of a comma list of names that are in the catalog, in order.
pub open spec fn kept_names(parts: Seq<Seq<char>>, names: Seq<Seq<char>>) -> Seq<Seq<char>>
    decreases parts.len(),
{
    if parts.len() == 0 {
        Seq::empty()
    } else {
        let front = kept_names(parts.drop_last(), names);
        if names.contains(parts.last()) {
            front.push(parts.last())
        } else {
            front
        }
    }
}

/// The pieces of a comma list of names that are not in the catalog, in
/// order.
pub open spec fn rejected_names(parts: Seq<Seq<char>>, names: Seq<Seq<char>>) -> Seq<Seq<char>>
    decreases parts.len(),
{
    if parts.len() == 0 {
        Seq::empty()
    } else {
        let front = rejected_names(parts.drop_last(), names);
        if names.contains(parts.last()) {
            front
        } else {
            front.push(parts.last())
        }
    }
}

/// Resolves a random-by-names request: splits the comma list, drops the
/// names that are not in the catalog (returning them, in order, for the
/// caller to warn about), and picks one of the remaining names uniformly
/// at random. Fails with `NoValidNames` exactly when no name is left.
pub fn resolve_random_by_names(
    catalog: &Catalog,
    names_str: &str,
    shiny_flag: bool,
    large: bool,
    rng: &mut rand::rngs::ThreadRng,
) -> (r: (Vec<String>, Result<ResolvedAsset, Error>))
    ensures
        ({
            let parts = split_seq(names_str@, ',');
            let kept = kept_names(parts, catalog.names());
            &&& seq_views(r.0@) == rejected_names(parts, catalog.names())
            &&& (r.1 is Ok <==> kept.len() > 0)
            &&& match r.1 {
                Ok(ra) => kept.contains(ra.display_name@) && ra.is_large == large && (shiny_flag
                    ==> ra.is_shiny),
                Err(e) => e == Error::NoValidNames,
            }
        }),
{
    let parts = split_on(names_str, ',');
    let n = parts.len();
    let mut valid: Vec<String> = Vec::new();
    let mut bad: Vec<String> = Vec::new();
    let mut i: usize = 0;
    while i < n
        invariant
            i <= n,
            n == parts@.len(),
            seq_views(parts@) == split_seq(names_str@, ','),
            seq_views(valid@) =~~= kept_names(
                seq_views(parts@).take(i as int),
                catalog.names(),
            ),
            seq_views(bad@) =~~= rejected_names(
                seq_views(parts@).take(i as int),
                catalog.names(),
            ),
        decreases n - i,
    {
        proof {
            assert(seq_views(parts@).take(i + 1).drop_last() =~= seq_views(parts@).take(i as int));
            assert(seq_views(parts@).take(i + 1).last() == parts@[i as int]@);
        }
        if catalog.contains_name(parts[i].as_str()) {
            valid.push(parts[i].clone());
        } else {
            bad.push(parts[i].clone());
        }
        i += 1;
    }
    proof {
        assert(seq_views(parts@).take(n as int) =~= seq_views(parts@));
    }
    if valid.len() == 0 {
        (bad, Err(Error::NoValidNames))
    } else {
        let k = rand_index(rng, valid.len());
        let name = valid[k].clone();
        proof {
            assert(kept_names(split_seq(names_str@, ','), catalog.names())[k as int] == name@);
        }
        let shiny = decide_shiny(rng, shiny_flag);
        (bad, Ok(ResolvedAsset { display_name: name, is_shiny: shiny, is_large: large }))
    }
}

} // verus!
