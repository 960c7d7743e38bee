//! Templates: CBOR diagnostic notation with embedded directives.
//!
//! A template is an ordered sequence of parts, each a literal text run or
//! a compiled directive. `%%` stands for one literal percent sign;
//! `%( ... )` compiles its inner text as a generator. Any other use of a
//! percent sign, or an unclosed `%(`, is a syntax error.

use vstd::prelude::*;

pub mod cddl;
pub mod parsers;

use crate::params::parsers::{compile_spec, generator, GenView, Generator};
use crate::rng::{rng_stream, FuzzRng};
use crate::text::{dec_string_of, digit_str, find_char, find_from, format_u64, hex_of, hex_of_byte,
    hex_string, lemma_find_from};
use crate::world::variables::{Environment, VarView, WorldVar};
use crate::ErrView;
use crate::ScenarioError;

verus! {

/// How deep template variables may expand through other templates before
/// rendering fails. A reference cycle among templates can never terminate,
/// so expansion is cut off with a distinct error instead.
pub const RENDER_DEPTH: u64 = 16;

/// One part of a parsed template.
#[derive(Debug)]
pub enum Part {
    /// A run of text emitted verbatim.
    Literal(String),
    /// A directive, emitting its generator's output.
    Directive(Generator),
}

/// The mathematical value of a `Part`.
pub enum PartView {
    Literal(Seq<char>),
    Directive(GenView),
}

impl View for Part {
    type V = PartView;

    open spec fn view(&self) -> PartView {
        match self {
            Part::Literal(s) => PartView::Literal(s@),
            Part::Directive(g) => PartView::Directive(g@),
        }
    }
}

/// A parsed template, ready to be rendered any number of times.
#[derive(Debug)]
pub struct Cbor {
    pub parts: Vec<Part>,
}

impl View for Cbor {
    type V = Seq<PartView>;

    open spec fn view(&self) -> Seq<PartView> {
        self.parts@.map_values(|p: Part| p@)
    }
}

impl Clone for Part {
    /// A clone has the same mathematical value.
    fn clone(&self) -> (r: Part)
        ensures
            r@ == self@,
    {
        match self {
            Part::Literal(s) => Part::Literal(s.clone()),
            Part::Directive(g) => Part::Directive(g.clone()),
        }
    }
}

impl Clone for Cbor {
    /// A clone has the same mathematical value.
    fn clone(&self) -> (r: Cbor)
        ensures
            r@ == self@,
    {
        let mut parts: Vec<Part> = Vec::new();
        let n = self.parts.len();
        let mut i: usize = 0;
        while i < n
            invariant
                i <= n == self.parts@.len(),
                parts@.len() == i,
                forall|k: int| 0 <= k < i ==> (#[trigger] parts@[k])@ == self.parts@[k]@,
            decreases n - i,
        {
            parts.push(self.parts[i].clone());
            i = i + 1;
        }
        let r = Cbor { parts };
        assert(r@ =~= self@);
        r
    }
}

/// What parsing the tail of a template starting at character `i` yields:
/// the parts, or the exact error. Each directive closes the preceding
/// literal run (possibly empty); the trailing literal run is always
/// emitted, even if empty.
pub open spec fn parse_from(s: Seq<char>, i: nat) -> Result<Seq<PartView>, ErrView>
    decreases s.len() - i
    when i <= s.len()
    via parse_from_decreases
{
    match find_from(s, i, '%') {
        None => Ok(seq![PartView::Literal(s.subrange(i as int, s.len() as int))]),
        Some(p) => {
            if p + 1 >= s.len() {
                Err(ErrView::Syntax { at: p })
            } else if s[p as int + 1] == '%' {
                match parse_from(s, p + 2) {
                    Ok(rest) => Ok(
                        seq![
                            PartView::Literal(s.subrange(i as int, p as int)),
                            PartView::Literal(seq!['%']),
                        ] + rest,
                    ),
                    Err(e) => Err(e),
                }
            } else if s[p as int + 1] == '(' {
                match find_from(s, p + 2, ')') {
                    None => Err(ErrView::Syntax { at: p }),
                    Some(q) => match compile_spec(s.subrange(p as int + 2, q as int)) {
                        Ok(g) => match parse_from(s, q + 1) {
                            Ok(rest) => Ok(
                                seq![
                                    PartView::Literal(s.subrange(i as int, p as int)),
                                    PartView::Directive(g),
                                ] + rest,
                            ),
                            Err(e) => Err(e),
                        },
                        Err(e) => Err(e),
                    },
                }
            } else {
                Err(ErrView::Syntax { at: p })
            }
        },
    }
}

#[via_fn]
proof fn parse_from_decreases(s: Seq<char>, i: nat) {
    lemma_find_from(s, i, '%');
    match find_from(s, i, '%') {
        None => {},
        Some(p) => {
            if p + 2 <= s.len() {
                lemma_find_from(s, p + 2, ')');
            }
        },
    }
}

/// Parse the template tail starting at character `i`, exactly as
/// `parse_from` says.
fn parse_at(s: &str, i: usize) -> (r: Result<Vec<Part>, ScenarioError>)
    requires
        i <= s@.len(),
    ensures
        match r {
            Ok(ps) => parse_from(s@, i as nat) == Ok::<Seq<PartView>, ErrView>(
                ps@.map_values(|p: Part| p@),
            ),
            Err(e) => parse_from(s@, i as nat) == Err::<Seq<PartView>, ErrView>(e@),
        },
    decreases s@.len() - i,
{
    let len = s.unicode_len();
    match find_char(s, i, '%') {
        None => {
            let lit = s.substring_char(i, len).to_owned();
            let mut parts: Vec<Part> = Vec::new();
            parts.push(Part::Literal(lit));
            assert(parts@.map_values(|p: Part| p@) =~= seq![
                PartView::Literal(s@.subrange(i as int, s@.len() as int)),
            ]);
            Ok(parts)
        },
        Some(p) => {
            proof {
                lemma_find_from(s@, i as nat, '%');
            }
            if p + 1 >= len {
                Err(ScenarioError::Syntax { at: p })
            } else {
                let next = s.get_char(p + 1);
                if next == '%' {
                    match parse_at(s, p + 2) {
                        Ok(mut rest) => {
                            let lit = s.substring_char(i, p).to_owned();
                            let mut parts: Vec<Part> = Vec::new();
                            parts.push(Part::Literal(lit));
                            let pct = "%";
                            proof {
                                reveal_strlit("%");
                                assert(pct@ =~= seq!['%']);
                            }
                            parts.push(Part::Literal(pct.to_owned()));
                            parts.append(&mut rest);
                            assert(parts@.map_values(|p2: Part| p2@) =~= seq![
                                PartView::Literal(s@.subrange(i as int, p as int)),
                                PartView::Literal(seq!['%']),
                            ] + (parse_from(s@, (p + 2) as nat)->Ok_0));
                            Ok(parts)
                        },
                        Err(e) => Err(e),
                    }
                } else if next == '(' {
                    match find_char(s, p + 2, ')') {
                        None => Err(ScenarioError::Syntax { at: p }),
                        Some(q) => {
                            proof {
                                lemma_find_from(s@, (p + 2) as nat, ')');
                            }
                            let inner = s.substring_char(p + 2, q);
                            match generator(inner) {
                                Ok(g) => {
                                    match parse_at(s, q + 1) {
                                        Ok(mut rest) => {
                                            let lit = s.substring_char(i, p).to_owned();
                                            let mut parts: Vec<Part> = Vec::new();
                                            parts.push(Part::Literal(lit));
                                            parts.push(Part::Directive(g));
                                            parts.append(&mut rest);
                                            assert(parts@.map_values(|p2: Part| p2@) =~= seq![
                                                PartView::Literal(s@.subrange(i as int, p as int)),
                                                PartView::Directive(g@),
                                            ] + (parse_from(s@, (q + 1) as nat)->Ok_0));
                                            Ok(parts)
                                        },
                                        Err(e) => Err(e),
                                    }
                                },
                                Err(e) => Err(e),
                            }
                        },
                    }
                } else {
                    Err(ScenarioError::Syntax { at: p })
                }
            }
        },
    }
}

/// A scenario identifier: the name a variable is registered and looked
/// up under.
#[derive(Debug, Hash, Ord, PartialOrd, Eq, PartialEq)]
pub struct Identifier(String);

impl View for Identifier {
    type V = Seq<char>;

    closed spec fn view(&self) -> Seq<char> {
        self.0@
    }
}

impl Identifier {
    /// Wrap a name. Any token is accepted; the surrounding step grammar
    /// constrains the spelling.
    pub fn from_str(s: &str) -> (r: Result<Identifier, ScenarioError>)
        ensures
            r is Ok && r->Ok_0@ == s@,
    {
        Ok(Identifier(s.to_owned()))
    }

    /// The name as an owned string.
    pub fn to_string(&self) -> (r: String)
        ensures
            r@ == self@,
    {
        self.0.clone()
    }

    /// The name as a borrowed string.
    pub fn as_ref(&self) -> (r: &str)
        ensures
            r@ == self@,
    {
        self.0.as_str()
    }
}

impl Clone for Identifier {
    /// A clone names the same identifier.
    fn clone(&self) -> (r: Identifier)
        ensures
            r@ == self@,
    {
        Identifier(self.0.clone())
    }
}

/// A protocol method name, as spelled in a scenario step.
#[derive(Debug, Hash, Ord, PartialOrd, Eq, PartialEq)]
pub struct Method(String);

impl View for Method {
    type V = Seq<char>;

    closed spec fn view(&self) -> Seq<char> {
        self.0@
    }
}

impl Method {
    /// Wrap a method name. Any token is accepted.
    pub fn from_str(s: &str) -> (r: Result<Method, ScenarioError>)
        ensures
            r is Ok && r->Ok_0@ == s@,
    {
        Ok(Method(s.to_owned()))
    }

    /// The method name as an owned string.
    pub fn into_string(self) -> (r: String)
        ensures
            r@ == self@,
    {
        self.0
    }
}

impl Clone for Method {
    /// A clone names the same method.
    fn clone(&self) -> (r: Method)
        ensures
            r@ == self@,
    {
        Method(self.0.clone())
    }
}

/// The byte drawn at one position of the random stream.
pub open spec fn byte_at(seed: u64, pos: nat) -> u8 {
    (rng_stream(seed, pos) % 256) as u8
}

/// The hexadecimal text of `n` consecutively drawn bytes.
pub open spec fn hex_draw(seed: u64, pos: nat, n: nat) -> Seq<char>
    decreases n,
{
    if n == 0 {
        Seq::empty()
    } else {
        hex_of_byte(byte_at(seed, pos)) + hex_draw(seed, pos + 1, (n - 1) as nat)
    }
}

/// Drawing one more byte appends its digits.
pub proof fn lemma_hex_draw_snoc(seed: u64, pos: nat, n: nat)
    ensures
        hex_draw(seed, pos, n + 1) == hex_draw(seed, pos, n) + hex_of_byte(byte_at(seed, pos + n)),
    decreases n,
{
    if n == 0 {
        assert(hex_draw(seed, pos + 1, 0) =~= Seq::<char>::empty());
        assert(hex_of_byte(byte_at(seed, pos)) + Seq::<char>::empty() =~= Seq::<char>::empty()
            + hex_of_byte(byte_at(seed, pos)));
        assert(hex_draw(seed, pos, 0) =~= Seq::<char>::empty());
    } else {
        lemma_hex_draw_snoc(seed, pos + 1, (n - 1) as nat);
        assert(hex_of_byte(byte_at(seed, pos)) + (hex_draw(seed, pos + 1, (n - 1) as nat)
            + hex_of_byte(byte_at(seed, pos + n))) =~= (hex_of_byte(byte_at(seed, pos)) + hex_draw(
            seed,
            pos + 1,
            (n - 1) as nat,
        )) + hex_of_byte(byte_at(seed, pos + n)));
    }
}

/// The integer drawn for a range directive: the draw is reduced into
/// `lo ..= hi` by its remainder (the full draw if the range covers every
/// value).
pub open spec fn int_draw(seed: u64, pos: nat, lo: u64, hi: u64) -> u64 {
    let x = rng_stream(seed, pos);
    let span = if hi >= lo {
        (hi - lo) as u64
    } else {
        0u64
    };
    if span == u64::MAX {
        x
    } else {
        ((lo as int) + ((x as int) % ((span as int) + 1))) as u64
    }
}

/// The textual form of an identity, address or symbol: its bytes as a
/// hexadecimal byte-string literal.
pub open spec fn var_text(bytes: Seq<u8>) -> Seq<char> {
    seq!['h', '\''] + hex_of(bytes) + seq!['\'']
}

/// What rendering one part yields: the fragment text and the stream
/// position after it, or the exact error. A variable reference resolves
/// at render time; a template variable renders recursively with one less
/// unit of `fuel`.
pub open spec fn render_part(
    part: PartView,
    env: Map<Seq<char>, VarView>,
    seed: u64,
    pos: nat,
    fuel: nat,
) -> Result<(Seq<char>, nat), ErrView>
    decreases fuel, 0nat, 0nat,
{
    match part {
        PartView::Literal(t) => Ok((t, pos)),
        PartView::Directive(g) => match g {
            GenView::HexBytes { len } => Ok((hex_draw(seed, pos, len as nat), (pos + len) as nat)),
            GenView::IntRange { lo, hi } => Ok(
                (dec_string_of(int_draw(seed, pos, lo, hi) as nat), (pos + 1) as nat),
            ),
            GenView::VarRef { name } => {
                if !env.contains_key(name) {
                    Err(ErrView::MissingVariable { name })
                } else {
                    match env[name] {
                        VarView::Identity(b) => Ok((var_text(b), pos)),
                        VarView::Address(b) => Ok((var_text(b), pos)),
                        VarView::Symbol(b) => Ok((var_text(b), pos)),
                        VarView::Cbor(ps) => {
                            if fuel == 0 {
                                Err(ErrView::DepthExceeded)
                            } else {
                                render_parts(ps, env, seed, pos, (fuel - 1) as nat)
                            }
                        },
                        VarView::Response(_) => Err(ErrView::CannotRender { name }),
                    }
                }
            },
        },
    }
}

/// What rendering a part sequence yields: the concatenated fragments and
/// the stream position after them, or the first error.
pub open spec fn render_parts(
    parts: Seq<PartView>,
    env: Map<Seq<char>, VarView>,
    seed: u64,
    pos: nat,
    fuel: nat,
) -> Result<(Seq<char>, nat), ErrView>
    decreases fuel, 1nat, parts.len(),
{
    if parts.len() == 0 {
        Ok((Seq::empty(), pos))
    } else {
        match render_part(parts[0], env, seed, pos, fuel) {
            Ok(tp) => match render_parts(parts.skip(1), env, seed, tp.1, fuel) {
                Ok(tp2) => Ok((tp.0 + tp2.0, tp2.1)),
                Err(e) => Err(e),
            },
            Err(e) => Err(e),
        }
    }
}

/// Rendering a literal run followed by further parts emits the run
/// verbatim, then the rest.
pub proof fn lemma_render_cons_literal(
    t: Seq<char>,
    rest: Seq<PartView>,
    env: Map<Seq<char>, VarView>,
    seed: u64,
    pos: nat,
    fuel: nat,
)
    ensures
        render_parts(seq![PartView::Literal(t)] + rest, env, seed, pos, fuel) == (
        match render_parts(rest, env, seed, pos, fuel) {
            Ok(tp) => Ok::<(Seq<char>, nat), ErrView>((t + tp.0, tp.1)),
            Err(e) => Err::<(Seq<char>, nat), ErrView>(e),
        }),
{
    let ps = seq![PartView::Literal(t)] + rest;
    assert(ps.len() > 0);
    assert(ps[0] == PartView::Literal(t));
    assert(ps.skip(1) =~= rest);
    assert(render_part(ps[0], env, seed, pos, fuel) == Ok::<(Seq<char>, nat), ErrView>((t, pos)));
}

/// Text with no percent sign at all parses to a single literal run and
/// renders to itself, unchanged, whatever the environment, the seed, the
/// stream position and the depth.
pub proof fn lemma_render_plain_text(
    s: Seq<char>,
    env: Map<Seq<char>, VarView>,
    seed: u64,
    pos: nat,
    fuel: nat,
)
    requires
        forall|k: int| 0 <= k < s.len() ==> s[k] != '%',
    ensures
        parse_from(s, 0) == Ok::<Seq<PartView>, ErrView>(seq![PartView::Literal(s)]),
        render_parts(seq![PartView::Literal(s)], env, seed, pos, fuel) == Ok::<
            (Seq<char>, nat),
            ErrView,
        >((s, pos)),
{
    lemma_find_from(s, 0, '%');
    if find_from(s, 0, '%') is Some {
        let j = find_from(s, 0, '%')->Some_0;
        assert(s[j as int] == '%');
        assert(false);
    }
    assert(s.subrange(0, s.len() as int) =~= s);
    assert(seq![PartView::Literal(s)].skip(1) =~= Seq::<PartView>::empty());
    assert(seq![PartView::Literal(s)][0] == PartView::Literal(s));
    assert(render_part(PartView::Literal(s), env, seed, pos, fuel) == Ok::<
        (Seq<char>, nat),
        ErrView,
    >((s, pos)));
    assert(render_parts(Seq::<PartView>::empty(), env, seed, pos, fuel) == Ok::<
        (Seq<char>, nat),
        ErrView,
    >((Seq::<char>::empty(), pos)));
    assert(s + Seq::<char>::empty() =~= s);
}

/// A double percent always stands for exactly one literal percent sign,
/// whatever surrounds it: with a percent-free prefix before it, the
/// template parses to the prefix, a one-character `%` literal, and the
/// parse of the rest; rendering emits the prefix and that single `%`
/// verbatim before the rest's output.
pub proof fn lemma_escape_renders_one_percent(
    s: Seq<char>,
    p: nat,
    env: Map<Seq<char>, VarView>,
    seed: u64,
    pos: nat,
    fuel: nat,
)
    requires
        p + 1 < s.len(),
        s[p as int] == '%',
        s[p as int + 1] == '%',
        forall|k: int| 0 <= k < p ==> s[k] != '%',
    ensures
        parse_from(s, 0) == (match parse_from(s, p + 2) {
            Ok(rest) => Ok::<Seq<PartView>, ErrView>(
                seq![PartView::Literal(s.subrange(0, p as int)), PartView::Literal(seq!['%'])]
                    + rest,
            ),
            Err(e) => Err::<Seq<PartView>, ErrView>(e),
        }),
        parse_from(s, p + 2) is Ok ==> render_parts(parse_from(s, 0)->Ok_0, env, seed, pos, fuel)
            == (match render_parts(parse_from(s, p + 2)->Ok_0, env, seed, pos, fuel) {
            Ok(tp) => Ok::<(Seq<char>, nat), ErrView>(
                (s.subrange(0, p as int) + seq!['%'] + tp.0, tp.1),
            ),
            Err(e) => Err::<(Seq<char>, nat), ErrView>(e),
        }),
{
    lemma_find_from(s, 0, '%');
    match find_from(s, 0, '%') {
        None => {
            assert(false);
        },
        Some(j) => {
            if j < p {
                assert(s[j as int] != '%');
                assert(false);
            }
            if j > p {
                assert(s[p as int] != '%');
                assert(false);
            }
            assert(j == p);
        },
    }
    if parse_from(s, p + 2) is Ok {
        let rest = parse_from(s, p + 2)->Ok_0;
        let pre = s.subrange(0, p as int);
        let parsed = seq![PartView::Literal(pre), PartView::Literal(seq!['%'])] + rest;
        assert(parse_from(s, 0)->Ok_0 == parsed);
        assert(parsed =~= seq![PartView::Literal(pre)] + (seq![PartView::Literal(seq!['%'])]
            + rest));
        lemma_render_cons_literal(pre, seq![PartView::Literal(seq!['%'])] + rest, env, seed, pos, fuel);
        lemma_render_cons_literal(seq!['%'], rest, env, seed, pos, fuel);
        if render_parts(rest, env, seed, pos, fuel) is Ok {
            let tp = render_parts(rest, env, seed, pos, fuel)->Ok_0;
            assert(pre + (seq!['%'] + tp.0) =~= pre + seq!['%'] + tp.0);
        }
    }
}

/// Rendering is deterministic: the template, the environment contents,
/// the seed, the stream position and the depth fully determine the
/// outcome, so two renders from equal states yield equal results.
pub proof fn lemma_render_deterministic(
    parts: Seq<PartView>,
    env1: Map<Seq<char>, VarView>,
    env2: Map<Seq<char>, VarView>,
    seed: u64,
    pos: nat,
    fuel: nat,
)
    requires
        env1 == env2,
    ensures
        render_parts(parts, env1, seed, pos, fuel) == render_parts(parts, env2, seed, pos, fuel),
{
}

/// A variable holding a recorded response has no textual form: a
/// directive referencing it always fails to render.
pub proof fn lemma_response_not_renderable(
    name: Seq<char>,
    env: Map<Seq<char>, VarView>,
    seed: u64,
    pos: nat,
    fuel: nat,
    data: Result<Seq<u8>, u64>,
)
    requires
        env.contains_key(name),
        env[name] == VarView::Response(data),
    ensures
        render_part(PartView::Directive(GenView::VarRef { name }), env, seed, pos, fuel) == Err::<
            (Seq<char>, nat),
            ErrView,
        >(ErrView::CannotRender { name }),
{
}

/// The byte-string literal wrapping of some bytes' hexadecimal digits.
fn wrap_hex(bytes: &Vec<u8>) -> (r: String)
    ensures
        r@ == var_text(bytes@),
{
    let mut out = "h'".to_owned();
    proof {
        reveal_strlit("h'");
        assert(out@ =~= seq!['h', '\'']);
    }
    let digits = hex_string(bytes);
    out.append(digits.as_str());
    let close = "'";
    proof {
        reveal_strlit("'");
        assert(close@ =~= seq!['\'']);
    }
    out.append(close);
    assert(out@ =~= var_text(bytes@));
    out
}

impl Generator {
    /// Produce this directive's fragment from the random source and the
    /// environment, exactly as `render_part` says.
    pub fn fuzz(&self, rng: &mut FuzzRng, variables: &Environment, fuel: u64) -> (r: Result<
        String,
        ScenarioError,
    >)
        requires
            variables.wf(),
        ensures
            final(rng).seed() == old(rng).seed(),
            match r {
                Ok(t) => render_part(
                    PartView::Directive(self@),
                    variables@,
                    old(rng).seed(),
                    old(rng).pos(),
                    fuel as nat,
                ) == Ok::<(Seq<char>, nat), ErrView>((t@, final(rng).pos())),
                Err(e) => render_part(
                    PartView::Directive(self@),
                    variables@,
                    old(rng).seed(),
                    old(rng).pos(),
                    fuel as nat,
                ) == Err::<(Seq<char>, nat), ErrView>(e@),
            },
        decreases fuel, 0int,
    {
        match self {
            Generator::HexBytes { len } => {
                let n: u64 = *len;
                let ghost seed = rng.seed();
                let ghost pos0 = rng.pos();
                let mut out = String::new();
                let mut i: u64 = 0;
                while i < n
                    invariant
                        i <= n,
                        rng.seed() == seed,
                        rng.pos() == pos0 + i,
                        out@ == hex_draw(seed, pos0, i as nat),
                    decreases n - i,
                {
                    let x = rng.next_u64();
                    let b = (x % 256) as u8;
                    let ghost old_out = out@;
                    out.append(digit_str(b / 16));
                    out.append(digit_str(b % 16));
                    proof {
                        lemma_hex_draw_snoc(seed, pos0, i as nat);
                        assert(b == byte_at(seed, pos0 + i as nat));
                        assert(out@ =~= old_out + hex_of_byte(b));
                        assert(out@ =~= hex_draw(seed, pos0, (i + 1) as nat));
                    }
                    i = i + 1;
                }
                Ok(out)
            },
            Generator::IntRange { lo, hi } => {
                let x = rng.next_u64();
                let v: u64;
                let span: u64 = if *hi >= *lo {
                    *hi - *lo
                } else {
                    0
                };
                if span == u64::MAX {
                    v = x;
                } else {
                    let m = x % (span + 1);
                    assert(m <= span);
                    v = *lo + m;
                }
                assert(v == int_draw(old(rng).seed(), old(rng).pos(), *lo, *hi));
                Ok(format_u64(v))
            },
            Generator::VarRef { name } => {
                match variables.get(name.as_str()) {
                    None => Err(ScenarioError::MissingVariable { name: name.clone() }),
                    Some(v) => match v {
                        WorldVar::Identity(b) => Ok(wrap_hex(b)),
                        WorldVar::Address(b) => Ok(wrap_hex(b)),
                        WorldVar::Symbol(b) => Ok(wrap_hex(b)),
                        WorldVar::Cbor(c) => {
                            if fuel == 0 {
                                Err(ScenarioError::DepthExceeded)
                            } else {
                                c.render_with_fuel(rng, variables, fuel - 1)
                            }
                        },
                        WorldVar::Response(_) => Err(
                            ScenarioError::CannotRender { name: name.clone() },
                        ),
                    },
                }
            },
        }
    }
}

pub uninterp spec fn diag_encoding(text: Seq<char>) -> Option<Seq<u8>>;

/// Relies on cbor_diag::parse_diag and cbor_diag::DataItem::to_bytes:
/// compiling diagnostic notation to its binary encoding is a function of
/// the text alone; text that is not valid notation is rejected.
#[verifier::external_body]
fn diag_to_bytes(text: &str) -> (r: Result<Vec<u8>, String>)
    ensures
        r is Ok <==> diag_encoding(text@) is Some,
        r is Ok ==> r->Ok_0@ == diag_encoding(text@)->Some_0,
{
    match cbor_diag::parse_diag(text) {
        Ok(item) => Ok(item.to_bytes()),
        Err(e) => Err(e.to_string()),
    }
}

impl Cbor {
    /// Render this template with a given expansion depth left.
    fn render_with_fuel(&self, rng: &mut FuzzRng, variables: &Environment, fuel: u64) -> (r: Result<
        String,
        ScenarioError,
    >)
        requires
            variables.wf(),
        ensures
            final(rng).seed() == old(rng).seed(),
            match r {
                Ok(t) => render_parts(
                    self@,
                    variables@,
                    old(rng).seed(),
                    old(rng).pos(),
                    fuel as nat,
                ) == Ok::<(Seq<char>, nat), ErrView>((t@, final(rng).pos())),
                Err(e) => render_parts(
                    self@,
                    variables@,
                    old(rng).seed(),
                    old(rng).pos(),
                    fuel as nat,
                ) == Err::<(Seq<char>, nat), ErrView>(e@),
            },
        decreases fuel, 1int,
    {
        let ghost seed = rng.seed();
        let ghost pos0 = rng.pos();
        let mut out = String::new();
        let n = self.parts.len();
        let mut i: usize = 0;
        proof {
            assert(self@.skip(0) =~= self@);
            if render_parts(self@, variables@, seed, pos0, fuel as nat) is Ok {
                let tp = render_parts(self@, variables@, seed, pos0, fuel as nat)->Ok_0;
                assert(out@ + tp.0 =~= tp.0);
                assert((out@ + tp.0, tp.1) =~= tp);
            }
        }
        while i < n
            invariant
                variables.wf(),
                i <= n == self.parts@.len(),
                seed == old(rng).seed(),
                pos0 == old(rng).pos(),
                rng.seed() == seed,
                render_parts(self@, variables@, seed, pos0, fuel as nat) == (match render_parts(
                    self@.skip(i as int),
                    variables@,
                    seed,
                    rng.pos(),
                    fuel as nat,
                ) {
                    Ok(tp) => Ok::<(Seq<char>, nat), ErrView>((out@ + tp.0, tp.1)),
                    Err(e) => Err::<(Seq<char>, nat), ErrView>(e),
                }),
            decreases n - i,
        {
            let ghost pos_i = rng.pos();
            let ghost old_out = out@;
            proof {
                assert(self@.skip(i as int).len() > 0);
                assert(self@.skip(i as int)[0] == self@[i as int]);
                assert(self@.skip(i as int).skip(1) =~= self@.skip(i as int + 1));
            }
            let part = &self.parts[i];
            match part {
                Part::Literal(s) => {
                    out.append(s.as_str());
                    proof {
                        assert(self@[i as int] == PartView::Literal(s@));
                        assert(render_part(self@[i as int], variables@, seed, pos_i, fuel as nat)
                            == Ok::<(Seq<char>, nat), ErrView>((s@, pos_i)));
                        let rp_tail = render_parts(
                            self@.skip(i as int + 1),
                            variables@,
                            seed,
                            pos_i,
                            fuel as nat,
                        );
                        assert(render_parts(self@.skip(i as int), variables@, seed, pos_i, fuel as nat)
                            == (match rp_tail {
                            Ok(tp2) => Ok::<(Seq<char>, nat), ErrView>((s@ + tp2.0, tp2.1)),
                            Err(e2) => Err::<(Seq<char>, nat), ErrView>(e2),
                        }));
                        if rp_tail is Ok {
                            let tp2 = rp_tail->Ok_0;
                            assert((old_out + s@) + tp2.0 =~= old_out + (s@ + tp2.0));
                        }
                    }
                },
                Part::Directive(g) => {
                    match g.fuzz(rng, variables, fuel) {
                        Ok(t) => {
                            out.append(t.as_str());
                            proof {
                                assert(self@[i as int] == PartView::Directive(g@));
                                assert(render_part(
                                    self@[i as int],
                                    variables@,
                                    seed,
                                    pos_i,
                                    fuel as nat,
                                ) == Ok::<(Seq<char>, nat), ErrView>((t@, rng.pos())));
                                let rp_tail = render_parts(
                                    self@.skip(i as int + 1),
                                    variables@,
                                    seed,
                                    rng.pos(),
                                    fuel as nat,
                                );
                                assert(render_parts(
                                    self@.skip(i as int),
                                    variables@,
                                    seed,
                                    pos_i,
                                    fuel as nat,
                                ) == (match rp_tail {
                                    Ok(tp2) => Ok::<(Seq<char>, nat), ErrView>((t@ + tp2.0, tp2.1)),
                                    Err(e2) => Err::<(Seq<char>, nat), ErrView>(e2),
                                }));
                                if rp_tail is Ok {
                                    let tp2 = rp_tail->Ok_0;
                                    assert((old_out + t@) + tp2.0 =~= old_out + (t@ + tp2.0));
                                }
                            }
                        },
                        Err(e) => {
                            proof {
                                assert(self@[i as int] == PartView::Directive(g@));
                                assert(render_part(
                                    self@[i as int],
                                    variables@,
                                    seed,
                                    pos_i,
                                    fuel as nat,
                                ) == Err::<(Seq<char>, nat), ErrView>(e@));
                                assert(render_parts(
                                    self@.skip(i as int),
                                    variables@,
                                    seed,
                                    pos_i,
                                    fuel as nat,
                                ) == Err::<(Seq<char>, nat), ErrView>(e@));
                            }
                            return Err(e);
                        },
                    }
                },
            }
            i = i + 1;
        }
        proof {
            assert(self@.skip(n as int) =~= Seq::<PartView>::empty());
            let tp = render_parts(self@.skip(n as int), variables@, seed, rng.pos(), fuel as nat)->Ok_0;
            assert(out@ + tp.0 =~= out@);
        }
        Ok(out)
    }

    /// Render this template to diagnostic-notation text: literal runs
    /// verbatim and each directive's generator output, in template order.
    /// Reads the environment; never changes it.
    pub fn render_string(&self, rng: &mut FuzzRng, variables: &Environment) -> (r: Result<
        String,
        ScenarioError,
    >)
        requires
            variables.wf(),
        ensures
            final(rng).seed() == old(rng).seed(),
            match r {
                Ok(t) => render_parts(
                    self@,
                    variables@,
                    old(rng).seed(),
                    old(rng).pos(),
                    RENDER_DEPTH as nat,
                ) == Ok::<(Seq<char>, nat), ErrView>((t@, final(rng).pos())),
                Err(e) => render_parts(
                    self@,
                    variables@,
                    old(rng).seed(),
                    old(rng).pos(),
                    RENDER_DEPTH as nat,
                ) == Err::<(Seq<char>, nat), ErrView>(e@),
            },
    {
        self.render_with_fuel(rng, variables, RENDER_DEPTH)
    }

    /// Render this template and compile the text to binary CBOR. Fails
    /// with the render error, or with a notation error when the rendered
    /// text is not valid diagnostic notation.
    pub fn render(&self, rng: &mut FuzzRng, variables: &Environment) -> (r: Result<
        Vec<u8>,
        ScenarioError,
    >)
        requires
            variables.wf(),
        ensures
            final(rng).seed() == old(rng).seed(),
            match render_parts(
                self@,
                variables@,
                old(rng).seed(),
                old(rng).pos(),
                RENDER_DEPTH as nat,
            ) {
                Ok(tp) => match diag_encoding(tp.0) {
                    Some(bytes) => r is Ok && r->Ok_0@ == bytes && final(rng).pos() == tp.1,
                    None => r is Err && r->Err_0@ is Notation,
                },
                Err(e) => r is Err && r->Err_0@ == e,
            },
    {
        let t = match self.render_string(rng, variables) {
            Ok(t) => t,
            Err(e) => {
                return Err(e);
            },
        };
        match diag_to_bytes(t.as_str()) {
            Ok(b) => Ok(b),
            Err(m) => Err(ScenarioError::Notation { message: m }),
        }
    }

    /// Parse a template from its source text, exactly as `parse_from`
    /// says: the parts of the result, in order, are the literal runs and
    /// compiled directives of the whole text.
    pub fn from_str(s: &str) -> (r: Result<Cbor, ScenarioError>)
        ensures
            match r {
                Ok(c) => parse_from(s@, 0) == Ok::<Seq<PartView>, ErrView>(c@),
                Err(e) => parse_from(s@, 0) == Err::<Seq<PartView>, ErrView>(e@),
            },
    {
        match parse_at(s, 0) {
            Ok(parts) => Ok(Cbor { parts }),
            Err(e) => Err(e),
        }
    }
}

} // verus!
