use std::marker::PhantomData;
use vstd::prelude::*;

verus! {

/// Typestate marker: the environment is still being built.
pub struct Unlocked;

/// Typestate marker: the environment is complete and immutable.
pub struct Locked;

/// Identity of the application that hosts the runtime.
pub struct AppInfo {
    pub app_name: String,
    pub company: String,
    pub qualifier: String,
}

/// Table of named paths, read from first entry to last; a later entry for a
/// name shadows an earlier one.
pub open spec fn paths_view(s: Seq<(String, String)>) -> Map<Seq<char>, Seq<char>>
    decreases s.len(),
{
    if s.len() == 0 {
        Map::empty()
    } else {
        paths_view(s.drop_last()).insert(s.last().0@, s.last().1@)
    }
}

/// Configuration of the runtime: application identity and named paths.
/// `State` is `Unlocked` while it is built and `Locked` once it is complete.
pub struct RuntimeModuleEnv<State> {
    pub state: PhantomData<State>,
    pub paths: Vec<(String, String)>,
    pub app: Option<AppInfo>,
}

impl<State> RuntimeModuleEnv<State> {
    /// The named paths as a map from name to path.
    pub open spec fn path_map(&self) -> Map<Seq<char>, Seq<char>> {
        paths_view(self.paths@)
    }
}

impl RuntimeModuleEnv<Unlocked> {
    /// An empty builder: no paths and no application identity.
    pub fn new() -> (r: Self)
        ensures
            r.path_map() == Map::<Seq<char>, Seq<char>>::empty(),
            r.paths@.len() == 0,
            r.app.is_none(),
    {
        RuntimeModuleEnv { state: PhantomData, paths: Vec::new(), app: None }
    }

    /// Binds `name` to `path`, replacing an earlier binding of `name`.
    pub fn insert_path(self, name: String, path: String) -> (r: Self)
        ensures
            r.path_map() == self.path_map().insert(name@, path@),
            r.app == self.app,
    {
        let ghost old_paths = self.paths@;
        let mut kept: Vec<(String, String)> = Vec::new();
        let mut i: usize = 0;
        while i < self.paths.len()
            invariant
                i <= self.paths@.len(),
                self.paths@ == old_paths,
                paths_view(kept@) == paths_view(old_paths.take(i as int)).remove(name@),
            decreases self.paths@.len() - i,
        {
            let ghost before = paths_view(old_paths.take(i as int));
            assert(old_paths.take(i as int + 1).drop_last() == old_paths.take(i as int));
            let entry = &self.paths[i];
            if entry.0 != name {
                let ghost prev = kept@;
                kept.push((entry.0.clone(), entry.1.clone()));
                assert(kept@.drop_last() == prev);
                assert(paths_view(kept@) =~= before.insert(entry.0@, entry.1@).remove(name@));
            } else {
                assert(paths_view(kept@) =~= before.insert(entry.0@, entry.1@).remove(name@));
            }
            i = i + 1;
        }
        assert(old_paths.take(old_paths.len() as int) == old_paths);
        let ghost prev = kept@;
        let ghost name_v = name@;
        let ghost path_v = path@;
        kept.push((name, path));
        assert(kept@.drop_last() == prev);
        assert(paths_view(kept@) =~= paths_view(old_paths).insert(name_v, path_v));
        RuntimeModuleEnv { state: PhantomData, paths: kept, app: self.app }
    }

    /// Sets the application identity, replacing an earlier one.
    pub fn add_app_info(self, name: String, company: String, qualifier: String) -> (r: Self)
        ensures
            r.paths@ == self.paths@,
            r.app.is_some(),
            r.app->Some_0.app_name@ == name@,
            r.app->Some_0.company@ == company@,
            r.app->Some_0.qualifier@ == qualifier@,
    {
        RuntimeModuleEnv {
            state: PhantomData,
            paths: self.paths,
            app: Some(AppInfo { app_name: name, company, qualifier }),
        }
    }

    /// Freezes the configuration. The application identity must have been set.
    pub fn lock_env(self) -> (r: RuntimeModuleEnv<Locked>)
        requires
            self.app.is_some(),
        ensures
            r.paths@ == self.paths@,
            r.app == self.app,
    {
        RuntimeModuleEnv { state: PhantomData, paths: self.paths, app: self.app }
    }
}

} // verus!
