use demucs_core::paths::{
    home_dir, htdemucs_checkpoint, htdemucs_ft_dir, htdemucs_ft_snapshots_dir, Base, Environment,
    Variable,
};

fn nothing() -> Environment {
    Environment {
        home: Variable::Unset,
        user_profile: Variable::Unset,
        torch_home: Variable::Unset,
        xdg_cache_home: Variable::Unset,
        hf_hub_cache: Variable::Unset,
        hf_home: Variable::Unset,
    }
}

#[test]
fn the_home_directory_is_the_first_that_is_filled() {
    let mut env = nothing();
    assert_eq!(home_dir(&env), None);
    env.user_profile = Variable::Filled;
    assert_eq!(home_dir(&env), Some(Base::UserProfile));
    env.home = Variable::Empty;
    assert_eq!(home_dir(&env), Some(Base::UserProfile));
    env.home = Variable::Filled;
    assert_eq!(home_dir(&env), Some(Base::Home));
}

#[test]
fn the_checkpoint_lies_in_the_torch_cache() {
    let tail = ["hub", "checkpoints", "955717e8-8726e21a.th"];
    let check = |env: &Environment, base: Base, lead: &[&str]| {
        let place = htdemucs_checkpoint(env);
        assert_eq!(place.base, base);
        assert_eq!(place.parts, [lead, &tail[..]].concat());
    };
    let mut env = nothing();
    check(&env, Base::Nothing, &["torch"]);
    env.home = Variable::Filled;
    check(&env, Base::Home, &[".cache", "torch"]);
    env.xdg_cache_home = Variable::Empty;
    check(&env, Base::Home, &[".cache", "torch"]);
    env.xdg_cache_home = Variable::Filled;
    check(&env, Base::XdgCacheHome, &["torch"]);
    // An empty override still overrides.
    env.torch_home = Variable::Empty;
    check(&env, Base::TorchHome, &[]);
}

#[test]
fn the_fine_tuned_snapshot_lies_in_the_hub_cache() {
    let mut env = nothing();
    let place = htdemucs_ft_snapshots_dir(&env);
    assert_eq!(place.base, Base::Nothing);
    assert_eq!(
        place.parts,
        vec!["huggingface", "hub", "models--adefossez--HTDemucs-ft", "snapshots"]
    );
    env.home = Variable::Filled;
    assert_eq!(
        htdemucs_ft_snapshots_dir(&env).parts,
        vec![".cache", "huggingface", "hub", "models--adefossez--HTDemucs-ft", "snapshots"]
    );
    env.hf_home = Variable::Empty;
    assert_eq!(htdemucs_ft_dir(&env).base, Base::Home);
    env.hf_home = Variable::Filled;
    let place = htdemucs_ft_dir(&env);
    assert_eq!(place.base, Base::HfHome);
    assert_eq!(
        place.parts,
        vec![
            "hub",
            "models--adefossez--HTDemucs-ft",
            "snapshots",
            "d74ac89c3a1e874fc78f152555cf4d8533f06cd4"
        ]
    );
    env.hf_hub_cache = Variable::Empty;
    let place = htdemucs_ft_dir(&env);
    assert_eq!((place.base, place.parts[0]), (Base::HfHubCache, "models--adefossez--HTDemucs-ft"));
}
