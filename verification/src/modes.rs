//! The governor mode controller: maps a performance intent onto one of the
//! frequency governors that the running kernel offers.

use crate::text::{str_eq, string_views};
use vstd::prelude::*;

verus! {

/// A performance intent.
#[derive(Debug, Clone, PartialEq, Eq)]
pub enum Mode {
    BatterySaver,
    Balanced,
    Performance,
    /// An explicit governor name.
    Custom(String),
}

/// The mathematical value of a `Mode`.
pub enum ModeView {
    BatterySaver,
    Balanced,
    Performance,
    Custom(Seq<char>),
}

impl View for Mode {
    type V = ModeView;

    open spec fn view(&self) -> ModeView {
        match self {
            Mode::BatterySaver => ModeView::BatterySaver,
            Mode::Balanced => ModeView::Balanced,
            Mode::Performance => ModeView::Performance,
            Mode::Custom(name) => ModeView::Custom(name@),
        }
    }
}

/// Why a mode could not be put into effect.
#[derive(Debug, Clone, Copy, PartialEq, Eq, Structural)]
pub enum ApplyError {
    /// The catalog holds none of the governors that the mode accepts.
    NoCompatibleGovernor,
    /// No core took the new governor.
    NoCoreAccepted,
}

/// The lowercase form of `s` as `str::to_lowercase` computes it, by the
/// Unicode case mappings.
pub uninterp spec fn lowercase(s: Seq<char>) -> Seq<char>;

/// The mode that an already lowercased name stands for: one of the named
/// modes, or else the name itself as a custom governor.
pub open spec fn mode_named(lowered: Seq<char>) -> ModeView {
    if lowered == "battery"@ || lowered == "saver"@ {
        ModeView::BatterySaver
    } else if lowered == "balanced"@ {
        ModeView::Balanced
    } else if lowered == "performance"@ {
        ModeView::Performance
    } else {
        ModeView::Custom(lowered)
    }
}

/// The governors that a mode accepts, most preferred first.
pub open spec fn preferences(mode: ModeView) -> Seq<Seq<char>> {
    match mode {
        ModeView::BatterySaver => seq!["powersave"@, "schedutil"@],
        ModeView::Balanced => seq!["ondemand"@, "schedutil"@],
        ModeView::Performance => seq!["performance"@],
        ModeView::Custom(name) => seq![name],
    }
}

/// The governors tried when going back to the default, most preferred first.
pub open spec fn default_preferences() -> Seq<Seq<char>> {
    seq!["ondemand"@, "schedutil"@, "powersave"@, "performance"@]
}

/// The first of `preferred` that `available` holds.
pub open spec fn first_match(available: Seq<Seq<char>>, preferred: Seq<Seq<char>>) -> Option<
    Seq<char>,
>
    decreases preferred.len(),
{
    if preferred.len() == 0 {
        None
    } else if available.contains(preferred[0]) {
        Some(preferred[0])
    } else {
        first_match(available, preferred.drop_first())
    }
}

/// The governor that `mode` selects from the catalog `available`.
pub open spec fn resolve(mode: ModeView, available: Seq<Seq<char>>) -> Option<Seq<char>> {
    first_match(available, preferences(mode))
}

/// The views of a sequence of string slices.
pub open spec fn str_views(v: Seq<&str>) -> Seq<Seq<char>> {
    v.map_values(|piece: &str| piece@)
}

/// `first_match` picks the earliest preferred name that is available, and
/// finds nothing exactly when no preferred name is available.
pub proof fn lemma_first_match(available: Seq<Seq<char>>, preferred: Seq<Seq<char>>)
    ensures
        match first_match(available, preferred) {
            Some(g) => exists|i: int|
                0 <= i < preferred.len() && #[trigger] preferred[i] == g && available.contains(g)
                    && forall|j: int| 0 <= j < i ==> !available.contains(#[trigger] preferred[j]),
            None => forall|j: int|
                0 <= j < preferred.len() ==> !available.contains(#[trigger] preferred[j]),
        },
    decreases preferred.len(),
{
    if preferred.len() == 0 {
    } else if available.contains(preferred[0]) {
        assert(forall|j: int| 0 <= j < 0 ==> !available.contains(#[trigger] preferred[j]));
    } else {
        let rest = preferred.drop_first();
        lemma_first_match(available, rest);
        match first_match(available, rest) {
            Some(g) => {
                let i = choose|i: int|
                    0 <= i < rest.len() && #[trigger] rest[i] == g && available.contains(g)
                        && forall|j: int| 0 <= j < i ==> !available.contains(#[trigger] rest[j]);
                assert(preferred[i + 1] == g);
                assert forall|j: int| 0 <= j < i + 1 implies !available.contains(
                    #[trigger] preferred[j],
                ) by {
                    if j > 0 {
                        assert(preferred[j] == rest[j - 1]);
                    }
                }
            },
            None => {
                assert forall|j: int| 0 <= j < preferred.len() implies !available.contains(
                    #[trigger] preferred[j],
                ) by {
                    if j > 0 {
                        assert(preferred[j] == rest[j - 1]);
                    }
                }
            },
        }
    }
}

/// Whatever governor a mode selects is one of the governors that the mode
/// accepts and is in the catalog.
pub proof fn lemma_selection_preferred_and_available(mode: ModeView, available: Seq<Seq<char>>)
    ensures
        resolve(mode, available) matches Some(g) ==> preferences(mode).contains(g)
            && available.contains(g),
{
    lemma_first_match(available, preferences(mode));
}

/// With an empty catalog no mode selects a governor, and neither does the
/// return to the default.
pub proof fn lemma_empty_catalog_selects_nothing(mode: ModeView)
    ensures
        resolve(mode, Seq::empty()) is None,
        first_match(Seq::empty(), default_preferences()) is None,
{
    let nothing = Seq::<Seq<char>>::empty();
    lemma_first_match(nothing, preferences(mode));
    lemma_first_match(nothing, default_preferences());
}

/// `str::to_lowercase`: the result is the lowercase form of the argument.
#[verifier::external_body]
fn to_lowercase(name: &str) -> (r: String)
    ensures
        r@ == lowercase(name@),
{
    name.to_lowercase()
}

impl Mode {
    /// The mode that a name stands for, whatever its letter case.
    pub fn from_str(name: &str) -> (r: Option<Mode>)
        ensures
            r matches Some(mode) && mode@ == mode_named(lowercase(name@)),
    {
        Some(Mode::from_lowercase(to_lowercase(name)))
    }

    /// The mode that an already lowercased name stands for.
    pub fn from_lowercase(lowered: String) -> (r: Mode)
        ensures
            r@ == mode_named(lowered@),
    {
        if str_eq(lowered.as_str(), "battery") || str_eq(lowered.as_str(), "saver") {
            Mode::BatterySaver
        } else if str_eq(lowered.as_str(), "balanced") {
            Mode::Balanced
        } else if str_eq(lowered.as_str(), "performance") {
            Mode::Performance
        } else {
            Mode::Custom(lowered)
        }
    }
}

/// Whether the catalog `available` holds `name`.
pub fn is_available(available: &[String], name: &str) -> (r: bool)
    ensures
        r == string_views(available@).contains(name@),
{
    let mut i: usize = 0;
    while i < available.len()
        invariant
            i <= available@.len(),
            forall|k: int| 0 <= k < i ==> string_views(available@)[k] != name@,
        decreases available@.len() - i,
    {
        if str_eq(available[i].as_str(), name) {
            assert(string_views(available@)[i as int] == name@);
            return true;
        }
        i += 1;
    }
    false
}

/// The first of `preferred` that the catalog `available` holds.
pub fn find_first_match(available: &[String], preferred: &[&str]) -> (r: Option<String>)
    ensures
        match r {
            Some(g) => first_match(string_views(available@), str_views(preferred@)) == Some(g@),
            None => first_match(string_views(available@), str_views(preferred@)) is None,
        },
{
    let ghost av = string_views(available@);
    let ghost pv = str_views(preferred@);
    let mut i: usize = 0;
    proof {
        assert(pv.skip(0) == pv);
    }
    while i < preferred.len()
        invariant
            i <= preferred@.len(),
            av == string_views(available@),
            pv == str_views(preferred@),
            first_match(av, pv) == first_match(av, pv.skip(i as int)),
        decreases preferred@.len() - i,
    {
        let candidate: &str = preferred[i];
        proof {
            assert(pv.skip(i as int)[0] == candidate@);
            assert(pv.skip(i as int).drop_first() == pv.skip(i + 1));
        }
        if is_available(available, candidate) {
            return Some(candidate.to_owned());
        }
        i += 1;
    }
    None
}

/// Decides which governor `mode` puts on the cores, given the catalog
/// `available` of governors that the kernel offers: the first that the mode
/// accepts and the catalog holds. Fails where there is none.
pub fn apply_mode(mode: &Mode, available: &[String]) -> (r: Result<String, ApplyError>)
    ensures
        match r {
            Ok(g) => resolve(mode@, string_views(available@)) == Some(g@),
            Err(e) => e == ApplyError::NoCompatibleGovernor && resolve(
                mode@,
                string_views(available@),
            ) is None,
        },
        r matches Ok(g) ==> preferences(mode@).contains(g@) && string_views(available@).contains(
            g@,
        ),
        available@.len() == 0 ==> r matches Err(ApplyError::NoCompatibleGovernor),
{
    let preferred: Vec<&str> = match mode {
        Mode::BatterySaver => vec!["powersave", "schedutil"],
        Mode::Balanced => vec!["ondemand", "schedutil"],
        Mode::Performance => vec!["performance"],
        Mode::Custom(name) => vec![name.as_str()],
    };
    proof {
        assert(str_views(preferred@) == preferences(mode@));
        lemma_selection_preferred_and_available(mode@, string_views(available@));
        if available@.len() == 0 {
            assert(string_views(available@) == Seq::<Seq<char>>::empty());
            lemma_empty_catalog_selects_nothing(mode@);
        }
    }
    match find_first_match(available, preferred.as_slice()) {
        Some(g) => Ok(g),
        None => Err(ApplyError::NoCompatibleGovernor),
    }
}

/// Decides which governor the return to the default puts on the cores: the
/// first of `default_preferences` that the catalog `available` holds. Fails
/// where there is none.
pub fn reset_to_default(available: &[String]) -> (r: Result<String, ApplyError>)
    ensures
        match r {
            Ok(g) => first_match(string_views(available@), default_preferences()) == Some(g@),
            Err(e) => e == ApplyError::NoCompatibleGovernor && first_match(
                string_views(available@),
                default_preferences(),
            ) is None,
        },
        r matches Ok(g) ==> default_preferences().contains(g@) && string_views(
            available@,
        ).contains(g@),
        available@.len() == 0 ==> r matches Err(ApplyError::NoCompatibleGovernor),
{
    let preferred: Vec<&str> = vec!["ondemand", "schedutil", "powersave", "performance"];
    proof {
        assert(str_views(preferred@) == default_preferences());
        lemma_first_match(string_views(available@), default_preferences());
        if available@.len() == 0 {
            assert(string_views(available@) == Seq::<Seq<char>>::empty());
            lemma_empty_catalog_selects_nothing(ModeView::Balanced);
        }
    }
    match find_first_match(available, preferred.as_slice()) {
        Some(g) => Ok(g),
        None => Err(ApplyError::NoCompatibleGovernor),
    }
}

} // verus!
