//! Parsing raw map tags into a closed set of categorical classifications.
//!
//! The cost model is split in two stages: this module turns the raw
//! key/value tag list of an edge into a `Tags` record over small enums
//! (what kind of infrastructure, what access, which oneway restrictions,
//! what surface), and the cost module maps that record to a factor. This
//! keeps the precedence of the scoring policy auditable instead of implicit
//! in string comparisons scattered through a long branch cascade.
//!
//! When a key occurs more than once in the input, the first occurrence wins;
//! a well-formed tag list has each key at most once.

use vstd::prelude::*;

verus! {

/// The functional road class of an edge.
#[derive(Clone, Copy, Debug, PartialEq, Eq, Structural)]
pub enum Highway {
    Cycleway,
    Proposed,
    Motorway,
    Steps,
    Track,
    Path,
    Footway,
    Pedestrian,
    Residential,
    Service,
    Unclassified,
    Tertiary,
    TertiaryLink,
    Secondary,
    SecondaryLink,
    Primary,
    Trunk,
    Other,
}

/// The kind of cycling infrastructure a `cycleway`-family tag declares.
#[derive(Clone, Copy, Debug, PartialEq, Eq, Structural)]
pub enum Cycleway {
    Track,
    Lane,
    SharedLane,
    ShareBusway,
    Crossing,
    Separate,
    Snow,
    No,
    Other,
}

/// A oneway-family restriction value.
#[derive(Clone, Copy, Debug, PartialEq, Eq, Structural)]
pub enum Oneway {
    Yes,
    No,
    Other,
}

/// The `bicycle` access tag.
#[derive(Clone, Copy, Debug, PartialEq, Eq, Structural)]
pub enum Bicycle {
    Yes,
    No,
    Designated,
    Dismount,
    Discouraged,
    Other,
}

/// The general `access` tag.
#[derive(Clone, Copy, Debug, PartialEq, Eq, Structural)]
pub enum Access {
    Private,
    No,
    Customers,
    Other,
}

/// The `surface` tag, reduced to the values the scoring policy reads.
#[derive(Clone, Copy, Debug, PartialEq, Eq, Structural)]
pub enum Surface {
    Sett,
    Cobblestone,
    FineGravel,
    Gravel,
    Chipseal,
    Other,
}

/// The `smoothness` tag, reduced to the one value the policy reads.
#[derive(Clone, Copy, Debug, PartialEq, Eq, Structural)]
pub enum Smoothness {
    Bad,
    Other,
}

/// The `footway` refinement tag.
#[derive(Clone, Copy, Debug, PartialEq, Eq, Structural)]
pub enum Footway {
    Sidewalk,
    Crossing,
    Other,
}

/// The `tunnel` tag.
#[derive(Clone, Copy, Debug, PartialEq, Eq, Structural)]
pub enum Tunnel {
    Yes,
    Other,
}

/// Everything the scoring policy reads out of an edge's raw tags.
/// `None` means the tag is absent; an `Other` variant means the tag is
/// present with a value the policy attaches no meaning to.
#[derive(Clone, Copy, Debug, PartialEq, Eq)]
pub struct Tags {
    pub highway: Option<Highway>,
    pub cycleway: Option<Cycleway>,
    pub cycleway_left: Option<Cycleway>,
    pub cycleway_right: Option<Cycleway>,
    pub cycleway_both: Option<Cycleway>,
    pub oneway: Option<Oneway>,
    pub oneway_bicycle: Option<Oneway>,
    pub cycleway_left_oneway: Option<Oneway>,
    pub cycleway_right_oneway: Option<Oneway>,
    pub bicycle: Option<Bicycle>,
    pub access: Option<Access>,
    pub surface: Option<Surface>,
    pub smoothness: Option<Smoothness>,
    pub footway: Option<Footway>,
    pub tunnel: Option<Tunnel>,
    pub cyclestreet: bool,
    pub informal: bool,
    pub abandoned: bool,
    pub use_sidepath: bool,
    pub winter_service_no: bool,
    pub indoor: bool,
}

impl Tags {
    /// The classification of an edge carrying no tags at all.
    pub fn unknown() -> (t: Tags)
        ensures
            t == spec_unknown_tags(),
    {
        Tags {
            highway: None,
            cycleway: None,
            cycleway_left: None,
            cycleway_right: None,
            cycleway_both: None,
            oneway: None,
            oneway_bicycle: None,
            cycleway_left_oneway: None,
            cycleway_right_oneway: None,
            bicycle: None,
            access: None,
            surface: None,
            smoothness: None,
            footway: None,
            tunnel: None,
            cyclestreet: false,
            informal: false,
            abandoned: false,
            use_sidepath: false,
            winter_service_no: false,
            indoor: false,
        }
    }

    /// Parses a raw key/value tag list; the first occurrence of a key wins.
    pub fn classify(pairs: &Vec<(String, String)>) -> (t: Tags)
        ensures
            t == spec_classify(pairs@),
    {
        let mut t = Tags::unknown();
        let mut i: usize = pairs.len();
        proof {
            assert(pairs@.subrange(i as int, pairs@.len() as int) =~= Seq::<(String,
            String)>::empty());
        }
        while i > 0
            invariant
                i <= pairs@.len(),
                t == spec_classify(pairs@.subrange(i as int, pairs@.len() as int)),
            decreases i,
        {
            i = i - 1;
            t = apply_tag(&pairs[i].0, &pairs[i].1, t);
            proof {
                let all = pairs@;
                assert(all.subrange(i as int, all.len() as int).drop_first() =~= all.subrange(
                    i + 1,
                    all.len() as int,
                ));
            }
        }
        proof {
            assert(pairs@.subrange(0, pairs@.len() as int) =~= pairs@);
        }
        t
    }
}

/// The all-absent classification.
pub open spec fn spec_unknown_tags() -> Tags {
    Tags {
        highway: None,
        cycleway: None,
        cycleway_left: None,
        cycleway_right: None,
        cycleway_both: None,
        oneway: None,
        oneway_bicycle: None,
        cycleway_left_oneway: None,
        cycleway_right_oneway: None,
        bicycle: None,
        access: None,
        surface: None,
        smoothness: None,
        footway: None,
        tunnel: None,
        cyclestreet: false,
        informal: false,
        abandoned: false,
        use_sidepath: false,
        winter_service_no: false,
        indoor: false,
    }
}

/// What a key/value tag list classifies to: the first pair is applied over
/// the classification of the rest, so the first occurrence of a key wins.
pub open spec fn spec_classify(pairs: Seq<(String, String)>) -> Tags
    decreases pairs.len(),
{
    if pairs.len() == 0 {
        spec_unknown_tags()
    } else {
        spec_apply_tag(pairs[0].0@, pairs[0].1@, spec_classify(pairs.drop_first()))
    }
}

/// One tag applied over an existing classification.
pub open spec fn spec_apply_tag(k: Seq<char>, v: Seq<char>, t: Tags) -> Tags {
    if k == "highway"@ {
        Tags { highway: Some(spec_parse_highway(v)), ..t }
    } else if k == "cycleway"@ {
        Tags { cycleway: Some(spec_parse_cycleway(v)), ..t }
    } else if k == "cycleway:left"@ {
        Tags { cycleway_left: Some(spec_parse_cycleway(v)), ..t }
    } else if k == "cycleway:right"@ {
        Tags { cycleway_right: Some(spec_parse_cycleway(v)), ..t }
    } else if k == "cycleway:both"@ {
        Tags { cycleway_both: Some(spec_parse_cycleway(v)), ..t }
    } else if k == "oneway"@ {
        Tags { oneway: Some(spec_parse_oneway(v)), ..t }
    } else if k == "oneway:bicycle"@ {
        Tags { oneway_bicycle: Some(spec_parse_oneway(v)), ..t }
    } else if k == "cycleway:left:oneway"@ {
        Tags { cycleway_left_oneway: Some(spec_parse_oneway(v)), ..t }
    } else if k == "cycleway:right:oneway"@ {
        Tags { cycleway_right_oneway: Some(spec_parse_oneway(v)), ..t }
    } else if k == "bicycle"@ {
        Tags { bicycle: Some(spec_parse_bicycle(v)), ..t }
    } else if k == "access"@ {
        Tags { access: Some(spec_parse_access(v)), ..t }
    } else if k == "surface"@ {
        Tags { surface: Some(spec_parse_surface(v)), ..t }
    } else if k == "smoothness"@ {
        Tags { smoothness: Some(spec_parse_smoothness(v)), ..t }
    } else if k == "footway"@ {
        Tags { footway: Some(spec_parse_footway(v)), ..t }
    } else if k == "tunnel"@ {
        Tags { tunnel: Some(spec_parse_tunnel(v)), ..t }
    } else if k == "cyclestreet"@ {
        Tags { cyclestreet: v == "yes"@, ..t }
    } else if k == "informal"@ {
        Tags { informal: v == "yes"@, ..t }
    } else if k == "abandoned"@ {
        Tags { abandoned: v == "yes"@, ..t }
    } else if k == "routing:bicycle"@ {
        Tags { use_sidepath: v == "use_sidepath"@, ..t }
    } else if k == "winter_service"@ {
        Tags { winter_service_no: v == "no"@, ..t }
    } else if k == "indoor"@ {
        Tags { indoor: v == "yes"@, ..t }
    } else {
        t
    }
}

pub open spec fn spec_parse_highway(v: Seq<char>) -> Highway {
    if v == "cycleway"@ {
        Highway::Cycleway
    } else if v == "proposed"@ {
        Highway::Proposed
    } else if v == "motorway"@ {
        Highway::Motorway
    } else if v == "steps"@ {
        Highway::Steps
    } else if v == "track"@ {
        Highway::Track
    } else if v == "path"@ {
        Highway::Path
    } else if v == "footway"@ {
        Highway::Footway
    } else if v == "pedestrian"@ {
        Highway::Pedestrian
    } else if v == "residential"@ {
        Highway::Residential
    } else if v == "service"@ {
        Highway::Service
    } else if v == "unclassified"@ {
        Highway::Unclassified
    } else if v == "tertiary"@ {
        Highway::Tertiary
    } else if v == "tertiary_link"@ {
        Highway::TertiaryLink
    } else if v == "secondary"@ {
        Highway::Secondary
    } else if v == "secondary_link"@ {
        Highway::SecondaryLink
    } else if v == "primary"@ {
        Highway::Primary
    } else if v == "trunk"@ {
        Highway::Trunk
    } else {
        Highway::Other
    }
}

pub open spec fn spec_parse_cycleway(v: Seq<char>) -> Cycleway {
    if v == "track"@ {
        Cycleway::Track
    } else if v == "lane"@ {
        Cycleway::Lane
    } else if v == "shared_lane"@ {
        Cycleway::SharedLane
    } else if v == "share_busway"@ {
        Cycleway::ShareBusway
    } else if v == "crossing"@ {
        Cycleway::Crossing
    } else if v == "separate"@ {
        Cycleway::Separate
    } else if v == "snow"@ {
        Cycleway::Snow
    } else if v == "no"@ {
        Cycleway::No
    } else {
        Cycleway::Other
    }
}

pub open spec fn spec_parse_oneway(v: Seq<char>) -> Oneway {
    if v == "yes"@ {
        Oneway::Yes
    } else if v == "no"@ {
        Oneway::No
    } else {
        Oneway::Other
    }
}

pub open spec fn spec_parse_bicycle(v: Seq<char>) -> Bicycle {
    if v == "yes"@ {
        Bicycle::Yes
    } else if v == "no"@ {
        Bicycle::No
    } else if v == "designated"@ {
        Bicycle::Designated
    } else if v == "dismount"@ {
        Bicycle::Dismount
    } else if v == "discouraged"@ {
        Bicycle::Discouraged
    } else {
        Bicycle::Other
    }
}

pub open spec fn spec_parse_access(v: Seq<char>) -> Access {
    if v == "private"@ {
        Access::Private
    } else if v == "no"@ {
        Access::No
    } else if v == "customers"@ {
        Access::Customers
    } else {
        Access::Other
    }
}

pub open spec fn spec_parse_surface(v: Seq<char>) -> Surface {
    if v == "sett"@ {
        Surface::Sett
    } else if v == "cobblestone"@ {
        Surface::Cobblestone
    } else if v == "fine_gravel"@ {
        Surface::FineGravel
    } else if v == "gravel"@ {
        Surface::Gravel
    } else if v == "chipseal"@ {
        Surface::Chipseal
    } else {
        Surface::Other
    }
}

pub open spec fn spec_parse_smoothness(v: Seq<char>) -> Smoothness {
    if v == "bad"@ {
        Smoothness::Bad
    } else {
        Smoothness::Other
    }
}

pub open spec fn spec_parse_footway(v: Seq<char>) -> Footway {
    if v == "sidewalk"@ {
        Footway::Sidewalk
    } else if v == "crossing"@ {
        Footway::Crossing
    } else {
        Footway::Other
    }
}

pub open spec fn spec_parse_tunnel(v: Seq<char>) -> Tunnel {
    if v == "yes"@ {
        Tunnel::Yes
    } else {
        Tunnel::Other
    }
}

/// A `String` compared against a literal by contents.
fn str_eq(a: &String, b: &str) -> (r: bool)
    ensures
        r == (a@ == b@),
{
    let owned: String = b.to_owned();
    *a == owned
}

fn parse_highway(v: &String) -> (h: Highway)
    ensures
        h == spec_parse_highway(v@),
{
    if str_eq(v, "cycleway") {
        Highway::Cycleway
    } else if str_eq(v, "proposed") {
        Highway::Proposed
    } else if str_eq(v, "motorway") {
        Highway::Motorway
    } else if str_eq(v, "steps") {
        Highway::Steps
    } else if str_eq(v, "track") {
        Highway::Track
    } else if str_eq(v, "path") {
        Highway::Path
    } else if str_eq(v, "footway") {
        Highway::Footway
    } else if str_eq(v, "pedestrian") {
        Highway::Pedestrian
    } else if str_eq(v, "residential") {
        Highway::Residential
    } else if str_eq(v, "service") {
        Highway::Service
    } else if str_eq(v, "unclassified") {
        Highway::Unclassified
    } else if str_eq(v, "tertiary") {
        Highway::Tertiary
    } else if str_eq(v, "tertiary_link") {
        Highway::TertiaryLink
    } else if str_eq(v, "secondary") {
        Highway::Secondary
    } else if str_eq(v, "secondary_link") {
        Highway::SecondaryLink
    } else if str_eq(v, "primary") {
        Highway::Primary
    } else if str_eq(v, "trunk") {
        Highway::Trunk
    } else {
        Highway::Other
    }
}

fn parse_cycleway(v: &String) -> (c: Cycleway)
    ensures
        c == spec_parse_cycleway(v@),
{
    if str_eq(v, "track") {
        Cycleway::Track
    } else if str_eq(v, "lane") {
        Cycleway::Lane
    } else if str_eq(v, "shared_lane") {
        Cycleway::SharedLane
    } else if str_eq(v, "share_busway") {
        Cycleway::ShareBusway
    } else if str_eq(v, "crossing") {
        Cycleway::Crossing
    } else if str_eq(v, "separate") {
        Cycleway::Separate
    } else if str_eq(v, "snow") {
        Cycleway::Snow
    } else if str_eq(v, "no") {
        Cycleway::No
    } else {
        Cycleway::Other
    }
}

fn parse_oneway(v: &String) -> (o: Oneway)
    ensures
        o == spec_parse_oneway(v@),
{
    if str_eq(v, "yes") {
        Oneway::Yes
    } else if str_eq(v, "no") {
        Oneway::No
    } else {
        Oneway::Other
    }
}

fn parse_bicycle(v: &String) -> (b: Bicycle)
    ensures
        b == spec_parse_bicycle(v@),
{
    if str_eq(v, "yes") {
        Bicycle::Yes
    } else if str_eq(v, "no") {
        Bicycle::No
    } else if str_eq(v, "designated") {
        Bicycle::Designated
    } else if str_eq(v, "dismount") {
        Bicycle::Dismount
    } else if str_eq(v, "discouraged") {
        Bicycle::Discouraged
    } else {
        Bicycle::Other
    }
}

fn parse_access(v: &String) -> (a: Access)
    ensures
        a == spec_parse_access(v@),
{
    if str_eq(v, "private") {
        Access::Private
    } else if str_eq(v, "no") {
        Access::No
    } else if str_eq(v, "customers") {
        Access::Customers
    } else {
        Access::Other
    }
}

fn parse_surface(v: &String) -> (s: Surface)
    ensures
        s == spec_parse_surface(v@),
{
    if str_eq(v, "sett") {
        Surface::Sett
    } else if str_eq(v, "cobblestone") {
        Surface::Cobblestone
    } else if str_eq(v, "fine_gravel") {
        Surface::FineGravel
    } else if str_eq(v, "gravel") {
        Surface::Gravel
    } else if str_eq(v, "chipseal") {
        Surface::Chipseal
    } else {
        Surface::Other
    }
}

fn parse_smoothness(v: &String) -> (s: Smoothness)
    ensures
        s == spec_parse_smoothness(v@),
{
    if str_eq(v, "bad") {
        Smoothness::Bad
    } else {
        Smoothness::Other
    }
}

fn parse_footway(v: &String) -> (f: Footway)
    ensures
        f == spec_parse_footway(v@),
{
    if str_eq(v, "sidewalk") {
        Footway::Sidewalk
    } else if str_eq(v, "crossing") {
        Footway::Crossing
    } else {
        Footway::Other
    }
}

fn parse_tunnel(v: &String) -> (t: Tunnel)
    ensures
        t == spec_parse_tunnel(v@),
{
    if str_eq(v, "yes") {
        Tunnel::Yes
    } else {
        Tunnel::Other
    }
}

fn apply_tag(k: &String, v: &String, t: Tags) -> (r: Tags)
    ensures
        r == spec_apply_tag(k@, v@, t),
{
    if str_eq(k, "highway") {
        Tags { highway: Some(parse_highway(v)), ..t }
    } else if str_eq(k, "cycleway") {
        Tags { cycleway: Some(parse_cycleway(v)), ..t }
    } else if str_eq(k, "cycleway:left") {
        Tags { cycleway_left: Some(parse_cycleway(v)), ..t }
    } else if str_eq(k, "cycleway:right") {
        Tags { cycleway_right: Some(parse_cycleway(v)), ..t }
    } else if str_eq(k, "cycleway:both") {
        Tags { cycleway_both: Some(parse_cycleway(v)), ..t }
    } else if str_eq(k, "oneway") {
        Tags { oneway: Some(parse_oneway(v)), ..t }
    } else if str_eq(k, "oneway:bicycle") {
        Tags { oneway_bicycle: Some(parse_oneway(v)), ..t }
    } else if str_eq(k, "cycleway:left:oneway") {
        Tags { cycleway_left_oneway: Some(parse_oneway(v)), ..t }
    } else if str_eq(k, "cycleway:right:oneway") {
        Tags { cycleway_right_oneway: Some(parse_oneway(v)), ..t }
    } else if str_eq(k, "bicycle") {
        Tags { bicycle: Some(parse_bicycle(v)), ..t }
    } else if str_eq(k, "access") {
        Tags { access: Some(parse_access(v)), ..t }
    } else if str_eq(k, "surface") {
        Tags { surface: Some(parse_surface(v)), ..t }
    } else if str_eq(k, "smoothness") {
        Tags { smoothness: Some(parse_smoothness(v)), ..t }
    } else if str_eq(k, "footway") {
        Tags { footway: Some(parse_footway(v)), ..t }
    } else if str_eq(k, "tunnel") {
        Tags { tunnel: Some(parse_tunnel(v)), ..t }
    } else if str_eq(k, "cyclestreet") {
        Tags { cyclestreet: str_eq(v, "yes"), ..t }
    } else if str_eq(k, "informal") {
        Tags { informal: str_eq(v, "yes"), ..t }
    } else if str_eq(k, "abandoned") {
        Tags { abandoned: str_eq(v, "yes"), ..t }
    } else if str_eq(k, "routing:bicycle") {
        Tags { use_sidepath: str_eq(v, "use_sidepath"), ..t }
    } else if str_eq(k, "winter_service") {
        Tags { winter_service_no: str_eq(v, "no"), ..t }
    } else if str_eq(k, "indoor") {
        Tags { indoor: str_eq(v, "yes"), ..t }
    } else {
        t
    }
}

} // verus!
