//! The symbols that name a place in the game: a sector, a system within a sector,
//! a waypoint within a system.
//!
//! A symbol is text in which hyphens part the levels: `X1` is a sector, `X1-DF55`
//! a system in it, `X1-DF55-20250Z` a waypoint in that system. A level may be
//! empty; only the number of hyphens decides what a text names.

use vstd::prelude::*;

verus! {

/// Why a text was not accepted as a symbol.
#[derive(Clone, Copy, Debug, PartialEq, Eq, Structural)]
pub enum SystemError {
    /// The text has the wrong number of hyphens for the symbol asked for.
    InvalidCoordinates,
}

impl SystemError {
    /// What went wrong, in words.
    pub fn message(&self) -> (text: String)
        ensures
            text@ == "coordinates are improperly formatted"@,
    {
        "coordinates are improperly formatted".to_owned()
    }
}

/// The places of the hyphens in `text`, in rising order.
pub open spec fn hyphen_positions(text: Seq<char>) -> Seq<int>
    decreases text.len(),
{
    if text.len() == 0 {
        Seq::empty()
    } else if text.last() == '-' {
        hyphen_positions(text.drop_last()).push(text.len() - 1)
    } else {
        hyphen_positions(text.drop_last())
    }
}

/// The sector that a symbol lies in: the text before its first hyphen, or all of
/// it where it has none.
pub open spec fn sector_of(symbol: Seq<char>) -> Seq<char> {
    if hyphen_positions(symbol).len() >= 1 {
        symbol.subrange(0, hyphen_positions(symbol)[0])
    } else {
        symbol
    }
}

/// The system that a symbol lies in: the text before its second hyphen, or all of
/// it where it has fewer.
pub open spec fn system_of(symbol: Seq<char>) -> Seq<char> {
    if hyphen_positions(symbol).len() >= 2 {
        symbol.subrange(0, hyphen_positions(symbol)[1])
    } else {
        symbol
    }
}

/// Every position is the place of a hyphen, the positions rise, and no hyphen is
/// left out.
pub proof fn lemma_hyphen_positions(text: Seq<char>)
    ensures
        hyphen_positions(text).len() <= text.len(),
        forall|k: int|
            0 <= k < hyphen_positions(text).len() ==> 0 <= (#[trigger] hyphen_positions(text)[k])
                < text.len() && text[hyphen_positions(text)[k]] == '-',
        forall|k: int, l: int|
            0 <= k < l < hyphen_positions(text).len() ==> (#[trigger] hyphen_positions(text)[k])
                < (#[trigger] hyphen_positions(text)[l]),
        forall|i: int|
            0 <= i < text.len() && text[i] == '-' ==> hyphen_positions(text).contains(i),
    decreases text.len(),
{
    if text.len() > 0 {
        let init = text.drop_last();
        lemma_hyphen_positions(init);
        let places = hyphen_positions(text);
        assert forall|i: int| 0 <= i < text.len() && text[i] == '-' implies places.contains(
            i,
        ) by {
            if i < init.len() {
                assert(init[i] == '-');
                let k = choose|k: int|
                    0 <= k < hyphen_positions(init).len() && hyphen_positions(init)[k] == i;
                assert(places[k] == i);
            } else {
                assert(places[places.len() - 1] == i);
            }
        }
    }
}

/// The hyphens of the text before the `k`-th hyphen are the hyphens before the
/// `k`-th.
pub proof fn lemma_hyphens_of_prefix(text: Seq<char>, k: int)
    requires
        0 <= k < hyphen_positions(text).len(),
    ensures
        0 <= hyphen_positions(text)[k] < text.len(),
        hyphen_positions(text.subrange(0, hyphen_positions(text)[k])) == hyphen_positions(
            text,
        ).take(k),
    decreases text.len(),
{
    lemma_hyphen_positions(text);
    let places = hyphen_positions(text);
    let cut = places[k];
    let init = text.drop_last();
    lemma_hyphen_positions(init);
    if k < hyphen_positions(init).len() {
        lemma_hyphens_of_prefix(init, k);
        assert(text.subrange(0, cut) == init.subrange(0, cut));
        assert(hyphen_positions(init).take(k) == places.take(k));
    } else {
        assert(cut == text.len() - 1);
        assert(text.subrange(0, cut) == init);
        assert(hyphen_positions(init) == places.take(k));
    }
}

/// Finds the hyphens of `text`.
pub(crate) fn find_hyphens(text: &str) -> (cuts: Vec<usize>)
    ensures
        cuts.len() == hyphen_positions(text@).len(),
        forall|k: int| 0 <= k < cuts.len() ==> cuts[k] as int == hyphen_positions(text@)[k],
        forall|k: int| 0 <= k < cuts.len() ==> (#[trigger] cuts[k]) < text@.len(),
{
    let length: usize = text.unicode_len();
    let mut cuts: Vec<usize> = Vec::new();
    let mut i: usize = 0;
    for c in chars: text.chars()
        invariant
            chars.seq() == text@,
            i == chars.index(),
            length == text@.len(),
            cuts.len() == hyphen_positions(text@.take(i as int)).len(),
            forall|k: int|
                0 <= k < cuts.len() ==> cuts[k] as int == hyphen_positions(
                    text@.take(i as int),
                )[k],
            forall|k: int| 0 <= k < cuts.len() ==> (#[trigger] cuts[k]) < i,
    {
        proof {
            assert(text@.take(i + 1).drop_last() == text@.take(i as int));
            assert(text@.take(i + 1).last() == c);
        }
        if c == '-' {
            cuts.push(i);
        }
        i = i + 1;
    }
    proof {
        assert(text@.take(i as int) == text@);
    }
    cuts
}

/// The first `end` characters of `text`, as a string of their own.
pub(crate) fn prefix(text: &str, end: usize) -> (head: String)
    requires
        end <= text@.len(),
    ensures
        head@ == text@.subrange(0, end as int),
{
    text.substring_char(0, end).to_owned()
}

/// Names a sector.
#[derive(Debug, PartialEq, Eq)]
pub struct SectorSymbol {
    sector: String,
}

impl View for SectorSymbol {
    type V = Seq<char>;

    closed spec fn view(&self) -> Seq<char> {
        self.sector@
    }
}

impl Clone for SectorSymbol {
    fn clone(&self) -> (copy: Self)
        ensures
            copy@ == self@,
    {
        proof {
            use_type_invariant(self);
        }
        SectorSymbol { sector: self.sector.clone() }
    }
}

impl SectorSymbol {
    #[verifier::type_invariant]
    spec fn inv(&self) -> bool {
        hyphen_positions(self.sector@).len() == 0
    }

    /// Reads `s` as the symbol of a sector, which it is if it has no hyphen.
    pub fn new(s: &str) -> (symbol: Result<SectorSymbol, SystemError>)
        ensures
            symbol is Ok <==> hyphen_positions(s@).len() == 0,
            symbol matches Ok(sector) ==> sector@ == s@,
    {
        let cuts: Vec<usize> = find_hyphens(s);
        if cuts.len() == 0 {
            Ok(SectorSymbol { sector: s.to_owned() })
        } else {
            Err(SystemError::InvalidCoordinates)
        }
    }

    /// The symbol of the sector.
    pub fn sector(&self) -> (text: &str)
        ensures
            text@ == self@,
            hyphen_positions(self@).len() == 0,
    {
        proof {
            use_type_invariant(self);
        }
        self.sector.as_str()
    }

    /// The symbol as an owned string.
    pub fn into_string(self) -> (text: String)
        ensures
            text@ == self@,
    {
        self.sector
    }
}

/// Names a system, and with it the sector that the system lies in.
#[derive(Debug, PartialEq, Eq)]
pub struct SystemSymbol {
    sector: String,
    system: String,
}

impl View for SystemSymbol {
    type V = Seq<char>;

    closed spec fn view(&self) -> Seq<char> {
        self.system@
    }
}

impl Clone for SystemSymbol {
    fn clone(&self) -> (copy: Self)
        ensures
            copy@ == self@,
    {
        proof {
            use_type_invariant(self);
        }
        SystemSymbol { sector: self.sector.clone(), system: self.system.clone() }
    }
}

impl SystemSymbol {
    #[verifier::type_invariant]
    spec fn inv(&self) -> bool {
        &&& hyphen_positions(self.system@).len() == 1
        &&& self.sector@ == sector_of(self.system@)
    }

    /// Reads `s` as the symbol of a system, which it is if it has one hyphen.
    pub fn new(s: &str) -> (symbol: Result<SystemSymbol, SystemError>)
        ensures
            symbol is Ok <==> hyphen_positions(s@).len() == 1,
            symbol matches Ok(system) ==> system@ == s@,
    {
        let cuts: Vec<usize> = find_hyphens(s);
        if cuts.len() == 1 {
            Ok(SystemSymbol { sector: prefix(s, cuts[0]), system: s.to_owned() })
        } else {
            Err(SystemError::InvalidCoordinates)
        }
    }

    /// The symbol of the sector that the system lies in.
    pub fn sector(&self) -> (text: &str)
        ensures
            text@ == sector_of(self@),
    {
        proof {
            use_type_invariant(self);
        }
        self.sector.as_str()
    }

    /// The sector that the system lies in.
    pub fn sector_symbol(&self) -> (sector: SectorSymbol)
        ensures
            sector@ == sector_of(self@),
    {
        proof {
            use_type_invariant(self);
            lemma_hyphens_of_prefix(self.system@, 0);
        }
        SectorSymbol { sector: self.sector.clone() }
    }

    /// The symbol of the system.
    pub fn system(&self) -> (text: &str)
        ensures
            text@ == self@,
            hyphen_positions(self@).len() == 1,
    {
        proof {
            use_type_invariant(self);
        }
        self.system.as_str()
    }

    /// The symbol as an owned string.
    pub fn into_string(self) -> (text: String)
        ensures
            text@ == self@,
    {
        self.system
    }
}

/// Names a waypoint, and with it the system and the sector that the waypoint lies
/// in.
#[derive(Debug, PartialEq, Eq)]
pub struct WaypointSymbol {
    sector: String,
    system: String,
    waypoint: String,
}

impl View for WaypointSymbol {
    type V = Seq<char>;

    closed spec fn view(&self) -> Seq<char> {
        self.waypoint@
    }
}

impl Clone for WaypointSymbol {
    fn clone(&self) -> (copy: Self)
        ensures
            copy@ == self@,
    {
        proof {
            use_type_invariant(self);
        }
        WaypointSymbol { sector: self.sector.clone(), system: self.system.clone(), waypoint: self.waypoint.clone() }
    }
}

impl WaypointSymbol {
    #[verifier::type_invariant]
    spec fn inv(&self) -> bool {
        &&& hyphen_positions(self.waypoint@).len() == 2
        &&& self.sector@ == sector_of(self.waypoint@)
        &&& self.system@ == system_of(self.waypoint@)
    }

    /// Reads `s` as the symbol of a waypoint, which it is if it has two hyphens.
    pub fn new(s: &str) -> (symbol: Result<WaypointSymbol, SystemError>)
        ensures
            symbol is Ok <==> hyphen_positions(s@).len() == 2,
            symbol matches Ok(waypoint) ==> waypoint@ == s@,
    {
        let cuts: Vec<usize> = find_hyphens(s);
        if cuts.len() == 2 {
            Ok(
                WaypointSymbol {
                    sector: prefix(s, cuts[0]),
                    system: prefix(s, cuts[1]),
                    waypoint: s.to_owned(),
                },
            )
        } else {
            Err(SystemError::InvalidCoordinates)
        }
    }

    /// The symbol of the sector that the waypoint lies in.
    pub fn sector(&self) -> (text: &str)
        ensures
            text@ == sector_of(self@),
    {
        proof {
            use_type_invariant(self);
        }
        self.sector.as_str()
    }

    /// The sector that the waypoint lies in.
    pub fn sector_symbol(&self) -> (sector: SectorSymbol)
        ensures
            sector@ == sector_of(self@),
    {
        proof {
            use_type_invariant(self);
            lemma_hyphens_of_prefix(self.waypoint@, 0);
        }
        SectorSymbol { sector: self.sector.clone() }
    }

    /// The symbol of the system that the waypoint lies in.
    pub fn system(&self) -> (text: &str)
        ensures
            text@ == system_of(self@),
    {
        proof {
            use_type_invariant(self);
        }
        self.system.as_str()
    }

    /// The system that the waypoint lies in.
    pub fn system_symbol(&self) -> (system: SystemSymbol)
        ensures
            system@ == system_of(self@),
    {
        proof {
            use_type_invariant(self);
            lemma_hyphens_of_prefix(self.waypoint@, 1);
            lemma_hyphen_positions(self.waypoint@);
            let places = hyphen_positions(self.waypoint@);
            assert(places.take(1)[0] == places[0]);
            assert(self.waypoint@.subrange(0, places[1]).subrange(0, places[0])
                == self.waypoint@.subrange(0, places[0]));
        }
        SystemSymbol { sector: self.sector.clone(), system: self.system.clone() }
    }

    /// The symbol of the waypoint.
    pub fn waypoint(&self) -> (text: &str)
        ensures
            text@ == self@,
            hyphen_positions(self@).len() == 2,
    {
        proof {
            use_type_invariant(self);
        }
        self.waypoint.as_str()
    }

    /// The symbol as an owned string.
    pub fn into_string(self) -> (text: String)
        ensures
            text@ == self@,
    {
        self.waypoint
    }
}

} // verus!
