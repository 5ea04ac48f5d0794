//! Where the checkpoints lie by default.
//!
//! Every place honours the conventional override and otherwise follows the standard
//! cache layout. Without a home directory a place is a relative path that simply will
//! not exist, which callers treat as "not present".

use vstd::prelude::*;

verus! {

/// The file name of the `htdemucs` checkpoint in the torch hub cache.
pub const HTDEMUCS_CHECKPOINT: &'static str = "955717e8-8726e21a.th";

/// The revision of the `htdemucs_ft` snapshot.
pub const HTDEMUCS_FT_REVISION: &'static str = "d74ac89c3a1e874fc78f152555cf4d8533f06cd4";

/// What is known of an environment variable.
#[derive(Debug, Clone, Copy, PartialEq, Eq, Structural)]
pub enum Variable {
    Unset,
    Empty,
    Filled,
}

impl Variable {
    pub open spec fn is_set(self) -> bool {
        self != Variable::Unset
    }

    pub open spec fn is_filled(self) -> bool {
        self == Variable::Filled
    }
}

/// The environment variables that decide.
#[derive(Debug, Clone, Copy, PartialEq, Eq, Structural)]
pub struct Environment {
    pub home: Variable,
    pub user_profile: Variable,
    pub torch_home: Variable,
    pub xdg_cache_home: Variable,
    pub hf_hub_cache: Variable,
    pub hf_home: Variable,
}

/// Where a path starts: at a variable's value, or at nothing.
#[derive(Debug, Clone, Copy, PartialEq, Eq, Structural)]
pub enum Base {
    Home,
    UserProfile,
    TorchHome,
    XdgCacheHome,
    HfHubCache,
    HfHome,
    Nothing,
}

/// What a place stands for.
#[verifier::ext_equal]
pub struct PlaceView {
    pub base: Base,
    pub parts: Seq<Seq<char>>,
}

/// A place: where it starts, and what is joined to that.
#[derive(Debug)]
pub struct Place {
    pub base: Base,
    pub parts: Vec<&'static str>,
}

impl View for Place {
    type V = PlaceView;

    open spec fn view(&self) -> PlaceView {
        PlaceView {
            base: self.base,
            parts: Seq::new(self.parts@.len(), |i: int| self.parts@[i]@),
        }
    }
}

impl PlaceView {
    pub open spec fn at(base: Base) -> PlaceView {
        PlaceView { base, parts: Seq::empty() }
    }

    pub open spec fn join(self, part: Seq<char>) -> PlaceView {
        PlaceView { parts: self.parts.push(part), ..self }
    }
}

impl Place {
    fn at(base: Base) -> (r: Self)
        ensures
            r@ == PlaceView::at(base),
    {
        let r = Place { base, parts: Vec::new() };
        assert(r@.parts =~= Seq::<Seq<char>>::empty());
        r
    }

    fn join(self, part: &'static str) -> (r: Self)
        ensures
            r@ == self@.join(part@),
    {
        let Place { base, mut parts } = self;
        parts.push(part);
        let r = Place { base, parts };
        assert(r@.parts =~= self@.parts.push(part@));
        r
    }
}

/// The home directory: what `HOME` holds, else what `USERPROFILE` holds.
pub open spec fn home_of(env: Environment) -> Option<Base> {
    if env.home.is_filled() {
        Some(Base::Home)
    } else if env.user_profile.is_filled() {
        Some(Base::UserProfile)
    } else {
        None
    }
}

/// The home directory.
pub fn home_dir(env: &Environment) -> (r: Option<Base>)
    ensures
        r == home_of(*env),
{
    if env.home == Variable::Filled {
        Some(Base::Home)
    } else if env.user_profile == Variable::Filled {
        Some(Base::UserProfile)
    } else {
        None
    }
}

/// The torch hub's checkpoints: `$TORCH_HOME/hub/checkpoints`, else
/// `$XDG_CACHE_HOME/torch/hub/checkpoints`, else `~/.cache/torch/hub/checkpoints`.
pub open spec fn torch_checkpoints(env: Environment) -> PlaceView {
    let base = if env.torch_home.is_set() {
        PlaceView::at(Base::TorchHome)
    } else if env.xdg_cache_home.is_filled() {
        PlaceView::at(Base::XdgCacheHome).join("torch"@)
    } else {
        match home_of(env) {
            Some(home) => PlaceView::at(home).join(".cache"@).join("torch"@),
            None => PlaceView::at(Base::Nothing).join("torch"@),
        }
    };
    base.join("hub"@).join("checkpoints"@)
}

fn torch_checkpoints_dir(env: &Environment) -> (r: Place)
    ensures
        r@ == torch_checkpoints(*env),
{
    let base = if env.torch_home != Variable::Unset {
        Place::at(Base::TorchHome)
    } else if env.xdg_cache_home == Variable::Filled {
        Place::at(Base::XdgCacheHome).join("torch")
    } else {
        match home_dir(env) {
            Some(home) => Place::at(home).join(".cache").join("torch"),
            None => Place::at(Base::Nothing).join("torch"),
        }
    };
    base.join("hub").join("checkpoints")
}

/// The Hugging Face hub: `$HF_HUB_CACHE`, else `$HF_HOME/hub`, else
/// `~/.cache/huggingface/hub`.
pub open spec fn hf_hub(env: Environment) -> PlaceView {
    if env.hf_hub_cache.is_set() {
        PlaceView::at(Base::HfHubCache)
    } else if env.hf_home.is_filled() {
        PlaceView::at(Base::HfHome).join("hub"@)
    } else {
        match home_of(env) {
            Some(home) => PlaceView::at(home).join(".cache"@).join("huggingface"@).join("hub"@),
            None => PlaceView::at(Base::Nothing).join("huggingface"@).join("hub"@),
        }
    }
}

fn hf_hub_dir(env: &Environment) -> (r: Place)
    ensures
        r@ == hf_hub(*env),
{
    if env.hf_hub_cache != Variable::Unset {
        Place::at(Base::HfHubCache)
    } else if env.hf_home == Variable::Filled {
        Place::at(Base::HfHome).join("hub")
    } else {
        match home_dir(env) {
            Some(home) => Place::at(home).join(".cache").join("huggingface").join("hub"),
            None => Place::at(Base::Nothing).join("huggingface").join("hub"),
        }
    }
}

/// The `htdemucs` checkpoint.
pub fn htdemucs_checkpoint(env: &Environment) -> (r: Place)
    ensures
        r@ == torch_checkpoints(*env).join(HTDEMUCS_CHECKPOINT@),
{
    torch_checkpoints_dir(env).join(HTDEMUCS_CHECKPOINT)
}

/// The directory that holds one `htdemucs_ft` snapshot per revision.
pub open spec fn snapshots(env: Environment) -> PlaceView {
    hf_hub(env).join("models--adefossez--HTDemucs-ft"@).join("snapshots"@)
}

/// The directory that holds one `htdemucs_ft` snapshot per revision.
pub fn htdemucs_ft_snapshots_dir(env: &Environment) -> (r: Place)
    ensures
        r@ == snapshots(*env),
{
    hf_hub_dir(env).join("models--adefossez--HTDemucs-ft").join("snapshots")
}

/// The `htdemucs_ft` snapshot.
pub fn htdemucs_ft_dir(env: &Environment) -> (r: Place)
    ensures
        r@ == snapshots(*env).join(HTDEMUCS_FT_REVISION@),
{
    htdemucs_ft_snapshots_dir(env).join(HTDEMUCS_FT_REVISION)
}

} // verus!
