//! The resolution tier of a map and the round trip between a tier and its
//! canonical display name.

use vstd::prelude::*;
use vstd::string::StrSliceExecFns;

verus! {

/// Selects which of the two built-in point datasets backs a draw call.
///
/// A higher resolution enumerates more points, so the painted outline is
/// denser. The dataset behind each tier is fixed for the life of the
/// process: see [`crate::world`].
#[derive(Debug, Clone, Copy, PartialEq, Eq, Structural, Hash)]
pub enum MapResolution {
    /// The lesser of the two tiers: about a thousand points.
    Low,
    /// The denser of the two tiers: about five thousand points.
    High,
}

/// The one error this library reports: a string that names no resolution
/// tier.
#[derive(Debug, Clone, Copy, PartialEq, Eq, Structural, Hash)]
pub enum ParseError {
    /// The input matched none of the canonical tier names.
    VariantNotFound,
}

/// The canonical display name of a resolution tier.
pub open spec fn spec_display_name(r: MapResolution) -> Seq<char> {
    match r {
        MapResolution::Low => "Low"@,
        MapResolution::High => "High"@,
    }
}

/// What parsing a string as a resolution tier yields: the tier whose
/// canonical name the string is, or an error for every other string.
pub open spec fn spec_parse(s: Seq<char>) -> Result<MapResolution, ParseError> {
    if s == "Low"@ {
        Ok(MapResolution::Low)
    } else if s == "High"@ {
        Ok(MapResolution::High)
    } else {
        Err(ParseError::VariantNotFound)
    }
}

impl MapResolution {
    /// The canonical, human-readable name of this tier.
    pub fn to_display_name(self) -> (r: &'static str)
        ensures
            r@ == spec_display_name(self),
    {
        match self {
            MapResolution::Low => "Low",
            MapResolution::High => "High",
        }
    }
}

impl MapResolution {
    /// Parses a canonical tier name back into its tier.
    ///
    /// Exactly the two canonical names succeed; every other string, the
    /// empty one included, is answered with
    /// [`ParseError::VariantNotFound`] and nothing else happens.
    pub fn parse(s: &str) -> (r: Result<MapResolution, ParseError>)
        ensures
            r == spec_parse(s@),
    {
        proof {
            reveal_strlit("Low");
            reveal_strlit("High");
        }
        let n: usize = s.unicode_len();
        if n == 3 && s.get_char(0) == 'L' && s.get_char(1) == 'o' && s.get_char(2) == 'w' {
            proof {
                assert(s@ =~= "Low"@);
            }
            Ok(MapResolution::Low)
        } else if n == 4 && s.get_char(0) == 'H' && s.get_char(1) == 'i' && s.get_char(2) == 'g'
            && s.get_char(3) == 'h' {
            proof {
                assert(s@ =~= "High"@);
            }
            Ok(MapResolution::High)
        } else {
            proof {
                assert(s@ != "Low"@ && s@ != "High"@) by {
                    if s@ == "Low"@ {
                        assert(s@.len() == 3 && s@[0] == 'L' && s@[1] == 'o' && s@[2] == 'w');
                    }
                    if s@ == "High"@ {
                        assert(s@.len() == 4 && s@[0] == 'H' && s@[1] == 'i' && s@[2] == 'g'
                            && s@[3] == 'h');
                    }
                }
            }
            Err(ParseError::VariantNotFound)
        }
    }
}

impl core::str::FromStr for MapResolution {
    type Err = ParseError;

    fn from_str(s: &str) -> Result<Self, ParseError> {
        MapResolution::parse(s)
    }
}

/// Displaying a tier and parsing the name back yields the tier again: the
/// two functions are an inverse pair over the canonical names.
pub proof fn lemma_display_parse_round_trip(r: MapResolution)
    ensures
        spec_parse(spec_display_name(r)) == Ok::<MapResolution, ParseError>(r),
{
    reveal_strlit("Low");
    reveal_strlit("High");
    assert("Low"@.len() == 3 && "High"@.len() == 4);
}

/// Round trip through a valid name: for any string that parses, displaying
/// the parsed tier and parsing that name again gives the same answer as
/// parsing the original string.
pub proof fn lemma_parse_display_parse_round_trip(n: Seq<char>)
    requires
        spec_parse(n) is Ok,
    ensures
        spec_parse(spec_display_name(spec_parse(n)->Ok_0)) == spec_parse(n),
{
    lemma_display_parse_round_trip(spec_parse(n)->Ok_0);
}

/// Any string outside the two canonical names — the empty one included —
/// parses to the "no matching variant" error, never to a tier.
pub proof fn lemma_parse_rejects_unknown(s: Seq<char>)
    requires
        s != spec_display_name(MapResolution::Low),
        s != spec_display_name(MapResolution::High),
    ensures
        spec_parse(s) == Err::<MapResolution, ParseError>(ParseError::VariantNotFound),
{
}

impl Default for MapResolution {
    /// The default tier is the low one.
    fn default() -> (r: Self)
        ensures
            r == MapResolution::Low,
    {
        MapResolution::Low
    }
}

} // verus!
