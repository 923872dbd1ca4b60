use vstd::prelude::*;

verus! {

/// The kinds of widget that can stand on the canvas.
#[derive(Clone, Copy, Debug, PartialEq, Eq, Structural, Hash)]
pub enum Kind {
    HeWho,
    SheWho,
    Land,
    Ocean,
    Heaven,
    Leech,
    BadFlame,
    SheWhoDead,
    HeWhoDirty,
    Rrm,
    HeavenShining,
    MoonCounting,
}

/// One step of a combination rule.
#[derive(Clone, Copy, Debug, PartialEq, Eq, Structural)]
pub enum Effect {
    /// Spawn a new widget of this kind at a random position.
    Create(Kind),
    /// Destroy the dragged widget if it has this kind, else the other one.
    Delete(Kind),
}

impl Kind {
    /// The identifier of the kind.
    pub fn name(&self) -> (r: &'static str)
        ensures
            r@ == name_spec(*self),
    {
        match self {
            Kind::HeWho => "he_who",
            Kind::SheWho => "she_who",
            Kind::Land => "land",
            Kind::Ocean => "ocean",
            Kind::Heaven => "heaven",
            Kind::Leech => "leech",
            Kind::BadFlame => "bad_flame",
            Kind::SheWhoDead => "she_who_dead",
            Kind::HeWhoDirty => "he_who_dirty",
            Kind::Rrm => "rrm",
            Kind::HeavenShining => "heaven_shining",
            Kind::MoonCounting => "moon_counting",
        }
    }

    /// The image file that shows a widget of this kind.
    pub fn asset_name(&self) -> (r: &'static str)
        ensures
            r@ == asset_spec(*self),
    {
        match self {
            Kind::HeWho => "HeWho.png",
            Kind::SheWho => "SheWho.png",
            Kind::Land => "Land.png",
            Kind::Ocean => "Ocean.png",
            Kind::Heaven => "Heaven.png",
            Kind::Leech => "Leech.png",
            Kind::BadFlame => "BadFlame.png",
            Kind::SheWhoDead => "SheWhoDead.png",
            Kind::HeWhoDirty => "HeWhoDirty.png",
            Kind::Rrm => "RRM.png",
            Kind::HeavenShining => "HeavenShining.png",
            Kind::MoonCounting => "MoonCounting.png",
        }
    }

    /// The label written under a widget of this kind.
    pub fn full_name(&self) -> (r: &'static str)
        ensures
            r@ == label_spec(*self),
    {
        match self {
            Kind::HeWho => "He Who Beckoned",
            Kind::SheWho => "She Who Beckoned",
            Kind::Land => "The Land",
            Kind::Ocean => "The Ocean",
            Kind::Heaven => "The Heavens",
            Kind::Leech => "Leech Child",
            Kind::BadFlame => "Swift Burning Flame Man",
            Kind::SheWhoDead => "She Who Beckoned (dead)",
            Kind::HeWhoDirty => "He Who Beckoned (dirty)",
            Kind::Rrm => "Rushing Raging Man",
            Kind::HeavenShining => "Heaven Shining",
            Kind::MoonCounting => "Moon Counting",
        }
    }

    /// The kinds that stand on the canvas at startup.
    pub fn starting() -> (r: Vec<Kind>)
        ensures
            r@ == starting_kinds(),
    {
        vec![Kind::HeWho, Kind::SheWho, Kind::Land, Kind::Ocean, Kind::Heaven]
    }
}

/// The identifier of each kind.
pub open spec fn name_spec(k: Kind) -> Seq<char> {
    match k {
        Kind::HeWho => "he_who"@,
        Kind::SheWho => "she_who"@,
        Kind::Land => "land"@,
        Kind::Ocean => "ocean"@,
        Kind::Heaven => "heaven"@,
        Kind::Leech => "leech"@,
        Kind::BadFlame => "bad_flame"@,
        Kind::SheWhoDead => "she_who_dead"@,
        Kind::HeWhoDirty => "he_who_dirty"@,
        Kind::Rrm => "rrm"@,
        Kind::HeavenShining => "heaven_shining"@,
        Kind::MoonCounting => "moon_counting"@,
    }
}

/// The image file of each kind.
pub open spec fn asset_spec(k: Kind) -> Seq<char> {
    match k {
        Kind::HeWho => "HeWho.png"@,
        Kind::SheWho => "SheWho.png"@,
        Kind::Land => "Land.png"@,
        Kind::Ocean => "Ocean.png"@,
        Kind::Heaven => "Heaven.png"@,
        Kind::Leech => "Leech.png"@,
        Kind::BadFlame => "BadFlame.png"@,
        Kind::SheWhoDead => "SheWhoDead.png"@,
        Kind::HeWhoDirty => "HeWhoDirty.png"@,
        Kind::Rrm => "RRM.png"@,
        Kind::HeavenShining => "HeavenShining.png"@,
        Kind::MoonCounting => "MoonCounting.png"@,
    }
}

/// The label of each kind.
pub open spec fn label_spec(k: Kind) -> Seq<char> {
    match k {
        Kind::HeWho => "He Who Beckoned"@,
        Kind::SheWho => "She Who Beckoned"@,
        Kind::Land => "The Land"@,
        Kind::Ocean => "The Ocean"@,
        Kind::Heaven => "The Heavens"@,
        Kind::Leech => "Leech Child"@,
        Kind::BadFlame => "Swift Burning Flame Man"@,
        Kind::SheWhoDead => "She Who Beckoned (dead)"@,
        Kind::HeWhoDirty => "He Who Beckoned (dirty)"@,
        Kind::Rrm => "Rushing Raging Man"@,
        Kind::HeavenShining => "Heaven Shining"@,
        Kind::MoonCounting => "Moon Counting"@,
    }
}

pub open spec fn starting_kinds() -> Seq<Kind> {
    seq![Kind::HeWho, Kind::SheWho, Kind::Land, Kind::Ocean, Kind::Heaven]
}

/// The rule table, keyed by the ordered pair under which each rule is written.
pub open spec fn rule_spec(a: Kind, b: Kind) -> Option<Seq<Effect>> {
    match (a, b) {
        (Kind::HeWho, Kind::SheWho) => Some(seq![
            Effect::Create(Kind::SheWhoDead),
            Effect::Create(Kind::BadFlame),
            Effect::Create(Kind::Leech),
            Effect::Delete(Kind::SheWho),
        ]),
        (Kind::HeWho, Kind::BadFlame) => Some(seq![Effect::Delete(Kind::BadFlame)]),
        (Kind::HeWhoDirty, Kind::BadFlame) => Some(seq![Effect::Delete(Kind::BadFlame)]),
        (Kind::HeWho, Kind::SheWhoDead) => Some(seq![
            Effect::Create(Kind::HeWhoDirty),
            Effect::Delete(Kind::HeWho),
            Effect::Delete(Kind::SheWhoDead),
        ]),
        (Kind::HeWhoDirty, Kind::Ocean) => Some(seq![
            Effect::Create(Kind::Rrm),
            Effect::Create(Kind::MoonCounting),
            Effect::Create(Kind::HeavenShining),
            Effect::Create(Kind::HeWho),
            Effect::Delete(Kind::HeWhoDirty),
        ]),
        _ => None,
    }
}

/// The effects of combining kinds `a` and `b`, in either order.
pub open spec fn combination_spec(a: Kind, b: Kind) -> Option<Seq<Effect>> {
    if rule_spec(a, b).is_some() {
        rule_spec(a, b)
    } else {
        rule_spec(b, a)
    }
}

pub open spec fn opt_vec_view(r: Option<Vec<Effect>>) -> Option<Seq<Effect>> {
    match r {
        Some(v) => Some(v@),
        None => None,
    }
}

/// The rule written under the ordered pair `(a, b)`, if any.
pub fn rule_for(a: Kind, b: Kind) -> (r: Option<Vec<Effect>>)
    ensures
        opt_vec_view(r) == rule_spec(a, b),
{
    match (a, b) {
        (Kind::HeWho, Kind::SheWho) => Some(vec![
            Effect::Create(Kind::SheWhoDead),
            Effect::Create(Kind::BadFlame),
            Effect::Create(Kind::Leech),
            Effect::Delete(Kind::SheWho),
        ]),
        (Kind::HeWho, Kind::BadFlame) => Some(vec![Effect::Delete(Kind::BadFlame)]),
        (Kind::HeWhoDirty, Kind::BadFlame) => Some(vec![Effect::Delete(Kind::BadFlame)]),
        (Kind::HeWho, Kind::SheWhoDead) => Some(vec![
            Effect::Create(Kind::HeWhoDirty),
            Effect::Delete(Kind::HeWho),
            Effect::Delete(Kind::SheWhoDead),
        ]),
        (Kind::HeWhoDirty, Kind::Ocean) => Some(vec![
            Effect::Create(Kind::Rrm),
            Effect::Create(Kind::MoonCounting),
            Effect::Create(Kind::HeavenShining),
            Effect::Create(Kind::HeWho),
            Effect::Delete(Kind::HeWhoDirty),
        ]),
        _ => None,
    }
}

/// The effects of combining a widget of kind `a` with one of kind `b`: the
/// rule written under `(a, b)`, else the one written under `(b, a)`.
pub fn combination_for(a: Kind, b: Kind) -> (r: Option<Vec<Effect>>)
    ensures
        opt_vec_view(r) == combination_spec(a, b),
{
    let first = rule_for(a, b);
    if first.is_some() {
        first
    } else {
        rule_for(b, a)
    }
}

/// Combining is symmetric: where kinds `a` and `b` have a rule, combining `b`
/// with `a` gives the same effects in the same order.
pub proof fn lemma_pair_symmetry(a: Kind, b: Kind)
    requires
        combination_spec(a, b).is_some(),
    ensures
        combination_spec(b, a) == combination_spec(a, b),
{
}

} // verus!
