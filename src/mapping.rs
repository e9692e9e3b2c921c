use vstd::prelude::*;

use crate::text::{
    lemma_split_first_at, lemma_split_first_without, lemma_split_on_append, lemma_split_on_nonempty, lemma_split_on_without,
    push_char, split_first, split_on,
};
use misskey::model::antenna::Antenna;
use misskey::model::id::{Id, ParseIdError};

verus! {

#[verifier::external_type_specification]
#[verifier::external_body]
#[verifier::reject_recursive_types(T)]
pub struct ExId<T: ?Sized>(Id<T>);

#[verifier::external_type_specification]
#[verifier::external_body]
pub struct ExAntenna(Antenna);

#[verifier::external_type_specification]
#[verifier::external_body]
pub struct ExParseIdError(ParseIdError);

/// Whether the antenna identifier parser of the `misskey` crate accepts the text.
pub uninterp spec fn aid_accepts(s: Seq<char>) -> bool;

/// The shape of text handed to the identifier parser: ASCII, two to fourteen characters.
/// The parser splits off the last two bytes and reads the rest as a base-36 timestamp
/// to which it adds a fixed epoch; on text of another shape it may panic.
pub open spec fn id_shaped(s: Seq<char>) -> bool {
    &&& 2 <= s.len() <= 14
    &&& forall|i: int| 0 <= i < s.len() ==> s[i] < '\u{80}'
}

/// Relies on `FromStr for misskey::model::id::Id`: the result is `Ok` exactly when the
/// text is a well-formed identifier, which depends on the text alone.
#[verifier::external_body]
fn parse_antenna_id(s: &str) -> (r: Result<Id<Antenna>, ParseIdError>)
    requires
        id_shaped(s@),
    ensures
        r is Ok <==> aid_accepts(s@),
{
    s.parse::<Id<Antenna>>()
}

/// What is wrong with a pair of the mapping.
#[derive(Clone, Copy, Debug, PartialEq, Eq, Structural)]
pub enum MappingFault {
    /// The pair holds no `=`.
    MissingSinkAddress,
    /// Nothing stands before the `=`.
    EmptyIdentifier,
    /// Nothing stands after the `=`.
    EmptySinkAddress,
    /// The part before the `=` is no antenna identifier.
    InvalidIdentifier,
}

/// The first malformed pair of a mapping, and what is wrong with it.
#[derive(Debug)]
pub struct MappingError {
    pub fault: MappingFault,
    pub token: String,
}

/// One antenna and the webhook its notes go to.
#[derive(Debug)]
pub struct AntennaMapping {
    /// The identifier as written in the mapping.
    pub antenna_id: String,
    /// The identifier as the streaming client takes it.
    pub antenna: Id<Antenna>,
    pub webhook: String,
}

impl AntennaMapping {
    pub open spec fn view(&self) -> (Seq<char>, Seq<char>) {
        (self.antenna_id@, self.webhook@)
    }
}

impl MappingError {
    pub open spec fn view(&self) -> (MappingFault, Seq<char>) {
        (self.fault, self.token@)
    }
}

pub open spec fn mappings_view(v: Seq<AntennaMapping>) -> Seq<(Seq<char>, Seq<char>)> {
    Seq::new(v.len(), |i: int| v[i].view())
}

/// What one pair `id=address` of the mapping yields: it is split at its first `=`.
pub open spec fn pair_spec(t: Seq<char>) -> Result<(Seq<char>, Seq<char>), MappingFault> {
    match split_first(t, '=') {
        None => Err(MappingFault::MissingSinkAddress),
        Some((id, addr)) => if id.len() == 0 {
            Err(MappingFault::EmptyIdentifier)
        } else if addr.len() == 0 {
            Err(MappingFault::EmptySinkAddress)
        } else if !(id_shaped(id) && aid_accepts(id)) {
            Err(MappingFault::InvalidIdentifier)
        } else {
            Ok((id, addr))
        },
    }
}

/// The pairs of a list of tokens, or the first fault with the token that has it.
pub open spec fn tokens_spec(toks: Seq<Seq<char>>) -> Result<
    Seq<(Seq<char>, Seq<char>)>,
    (MappingFault, Seq<char>),
>
    decreases toks.len(),
{
    if toks.len() == 0 {
        Ok(Seq::empty())
    } else {
        match tokens_spec(toks.drop_last()) {
            Err(e) => Err(e),
            Ok(ps) => match pair_spec(toks.last()) {
                Err(f) => Err((f, toks.last())),
                Ok(p) => Ok(ps.push(p)),
            },
        }
    }
}

/// What a whole mapping string yields: its pairs are separated by single spaces.
pub open spec fn mappings_spec(s: Seq<char>) -> Result<
    Seq<(Seq<char>, Seq<char>)>,
    (MappingFault, Seq<char>),
> {
    tokens_spec(split_on(s, ' '))
}

/// Whether the text has the shape that the identifier parser is handed.
fn check_id_shape(s: &str) -> (r: bool)
    ensures
        r == id_shaped(s@),
{
    let mut n: usize = 0;
    let mut ascii = true;
    for c in it: s.chars()
        invariant
            n == if it.index() < 15 { it.index() as int } else { 15 },
            it.seq() == s@,
            ascii <==> forall|i: int| 0 <= i < it.index() ==> s@[i] < '\u{80}',
    {
        if c >= '\u{80}' {
            ascii = false;
        }
        if n < 15 {
            n = n + 1;
        }
    }
    2 <= n && n <= 14 && ascii
}

/// Parses one pair `id=address`.
pub fn parse_pair(token: &str) -> (r: Result<AntennaMapping, MappingError>)
    ensures
        match pair_spec(token@) {
            Ok(p) => r is Ok && r->Ok_0.view() == p,
            Err(f) => r is Err && r->Err_0.view() == (f, token@),
        },
{
    let mut id = String::new();
    let mut addr = String::new();
    let mut seen = false;
    for c in it: token.chars()
        invariant
            it.seq() == token@,
            match split_first(token@.take(it.index() as int), '=') {
                None => !seen && id@ == token@.take(it.index() as int) && addr@.len() == 0,
                Some((a, b)) => seen && id@ == a && addr@ == b,
            },
    {
        let ghost k = it.index() as int;
        proof {
            assert(c == token@[k]);
            assert(token@.take(k + 1).drop_last() =~= token@.take(k));
            assert(token@.take(k + 1).last() == c);
            assert(token@.take(k).push(c) =~= token@.take(k + 1));
            assert(addr@.len() == 0 ==> addr@ =~= Seq::<char>::empty());
        }
        if seen {
            push_char(&mut addr, c);
        } else if c == '=' {
            seen = true;
        } else {
            push_char(&mut id, c);
        }
    }
    assert(token@.take(token@.len() as int) =~= token@);
    let tok = token.to_owned();
    if !seen {
        return Err(MappingError { fault: MappingFault::MissingSinkAddress, token: tok });
    }
    if id.as_str().is_empty() {
        return Err(MappingError { fault: MappingFault::EmptyIdentifier, token: tok });
    }
    if addr.as_str().is_empty() {
        return Err(MappingError { fault: MappingFault::EmptySinkAddress, token: tok });
    }
    if !check_id_shape(id.as_str()) {
        return Err(MappingError { fault: MappingFault::InvalidIdentifier, token: tok });
    }
    match parse_antenna_id(id.as_str()) {
        Ok(antenna) => Ok(AntennaMapping { antenna_id: id, antenna, webhook: addr }),
        Err(_) => Err(MappingError { fault: MappingFault::InvalidIdentifier, token: tok }),
    }
}

/// Adds the pair `token` to what was parsed, unless a fault was found already.
fn absorb(entries: &mut Vec<AntennaMapping>, failure: &mut Option<MappingError>, token: &str)
    ensures
        match tokens_result(old(entries)@, *old(failure)) {
            Ok(ps) => tokens_result(final(entries)@, *final(failure)) == match pair_spec(token@) {
                Ok(p) => Ok(ps.push(p)),
                Err(f) => Err((f, token@)),
            },
            Err(e) => tokens_result(final(entries)@, *final(failure)) == Err::<
                Seq<(Seq<char>, Seq<char>)>,
                (MappingFault, Seq<char>),
            >(e),
        },
{
    if failure.is_none() {
        match parse_pair(token) {
            Ok(m) => {
                let ghost before = entries@;
                entries.push(m);
                assert(mappings_view(entries@) =~= mappings_view(before).push(m.view()));
            },
            Err(e) => {
                *failure = Some(e);
            },
        }
    }
}

/// The result that the parsed pairs and the fault found so far stand for.
pub open spec fn tokens_result(entries: Seq<AntennaMapping>, failure: Option<MappingError>) -> Result<
    Seq<(Seq<char>, Seq<char>)>,
    (MappingFault, Seq<char>),
> {
    match failure {
        Some(e) => Err(e.view()),
        None => Ok(mappings_view(entries)),
    }
}

/// Parses a mapping `id1=hook1 id2=hook2 ...` into its pairs, in order. The first
/// malformed pair makes it fail; pairs after it are not looked at.
pub fn parse_mappings(s: &str) -> (r: Result<Vec<AntennaMapping>, MappingError>)
    ensures
        match mappings_spec(s@) {
            Ok(ps) => r is Ok && mappings_view(r->Ok_0@) == ps,
            Err(e) => r is Err && r->Err_0.view() == e,
        },
        r is Ok ==> forall|i: int|
            0 <= i < r->Ok_0@.len() ==> (#[trigger] r->Ok_0@[i]).antenna_id@.len() > 0
                && r->Ok_0@[i].webhook@.len() > 0,
{
    let mut entries: Vec<AntennaMapping> = Vec::new();
    let mut failure: Option<MappingError> = None;
    let mut cur = String::new();
    assert(mappings_view(entries@) =~= Seq::<(Seq<char>, Seq<char>)>::empty());
    for c in it: s.chars()
        invariant
            it.seq() == s@,
            split_on(s@.take(it.index() as int), ' ').len() >= 1,
            cur@ == split_on(s@.take(it.index() as int), ' ').last(),
            tokens_result(entries@, failure) == tokens_spec(
                split_on(s@.take(it.index() as int), ' ').drop_last(),
            ),
    {
        let ghost k = it.index() as int;
        proof {
            lemma_split_on_nonempty(s@.take(k), ' ');
            assert(c == s@[k]);
            assert(s@.take(k + 1).drop_last() =~= s@.take(k));
            assert(s@.take(k + 1).last() == c);
        }
        let ghost toks = split_on(s@.take(k), ' ');
        proof {
            lemma_split_on_nonempty(s@.take(k + 1), ' ');
        }
        if c == ' ' {
            absorb(&mut entries, &mut failure, cur.as_str());
            cur = String::new();
            proof {
                assert(split_on(s@.take(k + 1), ' ').drop_last() =~= toks);
                assert(toks.drop_last().push(toks.last()) =~= toks);
                assert(cur@ =~= Seq::<char>::empty());
            }
        } else {
            push_char(&mut cur, c);
            proof {
                assert(split_on(s@.take(k + 1), ' ').drop_last() =~= toks.drop_last());
            }
        }
    }
    let ghost toks = split_on(s@, ' ');
    proof {
        assert(s@.take(s@.len() as int) =~= s@);
        lemma_split_on_nonempty(s@, ' ');
        assert(toks.drop_last().push(toks.last()) =~= toks);
    }
    absorb(&mut entries, &mut failure, cur.as_str());
    proof {
        assert(tokens_result(entries@, failure) == tokens_spec(toks));
        if failure is None {
            lemma_parsed_pairs_nonempty(toks);
            assert(tokens_spec(toks)->Ok_0 == mappings_view(entries@));
            assert forall|i: int| 0 <= i < entries@.len() implies (#[trigger] entries@[i]).antenna_id@.len()
                > 0 && entries@[i].webhook@.len() > 0 by {
                assert(mappings_view(entries@)[i] == entries@[i].view());
            }
        }
    }
    match failure {
        Some(e) => Err(e),
        None => Ok(entries),
    }
}

/// A pair written as `id=address`.
pub open spec fn pair_text(p: (Seq<char>, Seq<char>)) -> Seq<char> {
    p.0.push('=') + p.1
}

/// Pairs written one after another, separated by single spaces.
pub open spec fn mapping_text(ps: Seq<(Seq<char>, Seq<char>)>) -> Seq<char>
    decreases ps.len(),
{
    if ps.len() == 0 {
        Seq::empty()
    } else if ps.len() == 1 {
        pair_text(ps[0])
    } else {
        mapping_text(ps.drop_last()).push(' ') + pair_text(ps.last())
    }
}

/// A pair that the mapping parser takes: a valid antenna identifier without spaces or
/// `=`, and a non-empty address without spaces.
pub open spec fn well_formed_pair(p: (Seq<char>, Seq<char>)) -> bool {
    &&& p.0.len() > 0
    &&& p.1.len() > 0
    &&& !p.0.contains(' ')
    &&& !p.0.contains('=')
    &&& !p.1.contains(' ')
    &&& id_shaped(p.0)
    &&& aid_accepts(p.0)
}

/// A well-formed pair, written out, holds no space.
proof fn lemma_pair_text_has_no_space(p: (Seq<char>, Seq<char>))
    requires
        well_formed_pair(p),
    ensures
        !pair_text(p).contains(' '),
{
    let t = pair_text(p);
    if t.contains(' ') {
        let j = choose|j: int| 0 <= j < t.len() && t[j] == ' ';
        if j < p.0.len() {
            assert(p.0[j] == ' ');
        } else if j > p.0.len() {
            assert(p.1[j - p.0.len() - 1] == ' ');
        }
    }
}

/// Splitting a mapping written from well-formed pairs gives back the written pairs.
proof fn lemma_mapping_tokens(ps: Seq<(Seq<char>, Seq<char>)>)
    requires
        ps.len() >= 1,
        forall|i: int| 0 <= i < ps.len() ==> well_formed_pair(#[trigger] ps[i]),
    ensures
        split_on(mapping_text(ps), ' ') == Seq::new(ps.len(), |i: int| pair_text(ps[i])),
    decreases ps.len(),
{
    lemma_pair_text_has_no_space(ps.last());
    lemma_split_on_without(pair_text(ps.last()), ' ');
    if ps.len() == 1 {
        assert(Seq::new(ps.len(), |i: int| pair_text(ps[i])) =~= seq![pair_text(ps[0])]);
    } else {
        let prev = ps.drop_last();
        assert forall|i: int| 0 <= i < prev.len() implies well_formed_pair(#[trigger] prev[i]) by {
            assert(prev[i] == ps[i]);
        }
        lemma_mapping_tokens(prev);
        lemma_split_on_append(mapping_text(prev), pair_text(ps.last()), ' ');
        assert(Seq::new(ps.len(), |i: int| pair_text(ps[i])) =~= Seq::new(
            prev.len(),
            |i: int| pair_text(prev[i]),
        ) + seq![pair_text(ps.last())]);
    }
}

/// Each written well-formed pair parses back to itself.
proof fn lemma_tokens_of_pairs(ps: Seq<(Seq<char>, Seq<char>)>)
    requires
        forall|i: int| 0 <= i < ps.len() ==> well_formed_pair(#[trigger] ps[i]),
    ensures
        tokens_spec(Seq::new(ps.len(), |i: int| pair_text(ps[i]))) == Ok::<
            Seq<(Seq<char>, Seq<char>)>,
            (MappingFault, Seq<char>),
        >(ps),
    decreases ps.len(),
{
    let toks = Seq::new(ps.len(), |i: int| pair_text(ps[i]));
    if ps.len() == 0 {
        assert(ps =~= Seq::<(Seq<char>, Seq<char>)>::empty());
    } else {
        let prev = ps.drop_last();
        assert forall|i: int| 0 <= i < prev.len() implies well_formed_pair(#[trigger] prev[i]) by {
            assert(prev[i] == ps[i]);
        }
        lemma_tokens_of_pairs(prev);
        assert(toks.drop_last() =~= Seq::new(prev.len(), |i: int| pair_text(prev[i])));
        let p = ps.last();
        assert(well_formed_pair(ps[ps.len() - 1]));
        lemma_split_first_at(p.0, p.1, '=');
        assert(pair_spec(toks.last()) == Ok::<(Seq<char>, Seq<char>), MappingFault>(p));
        assert(prev.push(p) =~= ps);
    }
}

/// A mapping written from well-formed pairs parses back to exactly those pairs, as many
/// and in the same order.
pub proof fn lemma_parse_well_formed(ps: Seq<(Seq<char>, Seq<char>)>)
    requires
        ps.len() >= 1,
        forall|i: int| 0 <= i < ps.len() ==> well_formed_pair(#[trigger] ps[i]),
    ensures
        mappings_spec(mapping_text(ps)) == Ok::<
            Seq<(Seq<char>, Seq<char>)>,
            (MappingFault, Seq<char>),
        >(ps),
{
    lemma_mapping_tokens(ps);
    lemma_tokens_of_pairs(ps);
}

/// Every pair that parsing yields has a non-empty identifier and a non-empty address.
pub proof fn lemma_parsed_pairs_nonempty(toks: Seq<Seq<char>>)
    requires
        tokens_spec(toks) is Ok,
    ensures
        forall|i: int|
            0 <= i < tokens_spec(toks)->Ok_0.len() ==> (#[trigger] tokens_spec(toks)->Ok_0[i]).0.len()
                > 0 && tokens_spec(toks)->Ok_0[i].1.len() > 0,
    decreases toks.len(),
{
    if toks.len() > 0 {
        lemma_parsed_pairs_nonempty(toks.drop_last());
    }
}

/// A pair without `=` lacks its address; one with nothing before its first `=` lacks its
/// identifier; one with nothing after it lacks its address.
pub proof fn lemma_pair_faults(id: Seq<char>, addr: Seq<char>)
    requires
        !id.contains('='),
    ensures
        pair_spec(id) == Err::<(Seq<char>, Seq<char>), MappingFault>(
            MappingFault::MissingSinkAddress,
        ),
        pair_spec(seq!['='] + addr) == Err::<(Seq<char>, Seq<char>), MappingFault>(
            MappingFault::EmptyIdentifier,
        ),
        id.len() > 0 ==> pair_spec(id.push('=')) == Err::<(Seq<char>, Seq<char>), MappingFault>(
            MappingFault::EmptySinkAddress,
        ),
{
    lemma_split_first_without(id, '=');
    let empty = Seq::<char>::empty();
    assert(!empty.contains('='));
    lemma_split_first_at(empty, addr, '=');
    assert(empty.push('=') + addr =~= seq!['='] + addr);
    lemma_split_first_at(id, empty, '=');
    assert(id.push('=') + empty =~= id.push('='));
}

} // verus!
