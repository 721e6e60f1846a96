//! The policy that a context sees: its layers, merged, and remembered until a file changes.

use vstd::prelude::*;

use crate::context;
use crate::context::LayerSource;
use crate::context::MergedCacheKey;
use crate::context::MtimeKey;
use crate::paths;
use crate::store::PolicyStore;
use crate::store::PolicydArgs;
use crate::table::Table;
use crate::table::TableKey;
use crate::text;
use crate::types::Policy;
use crate::types::ResolvedRequestContext;
use crate::types::RuleSet;

verus! {

/// The layers that the files hold.
pub open spec fn loaded<L: Fn(&LayerSource) -> Policy>(sources: Seq<LayerSource>, load: L) -> Seq<
    Policy,
> {
    sources.map_values(|source: LayerSource| text::answer(load, source))
}

/// The policy is the merged one with the context's policy files hidden.
pub open spec fn hidden_in(
    args: PolicydArgs,
    ctx: ResolvedRequestContext,
    trusted: Option<String>,
    merged: Policy,
    r: Policy,
) -> bool {
    &&& r == (Policy {
        filesystem: RuleSet { deny: r.filesystem.deny, ..merged.filesystem },
        ..merged
    })
    &&& context::hidden_added(
        merged.filesystem.deny@,
        r.filesystem.deny@,
        context::hidden_files(args.declarative@, args.package_declarative@, ctx, trusted),
    )
}

/// The policy is what the layers of the context merge to, with the policy files hidden.
pub open spec fn merged_policy<L: Fn(&LayerSource) -> Policy, M: Fn(&Vec<Policy>) -> Policy>(
    args: PolicydArgs,
    ctx: ResolvedRequestContext,
    trusted: Option<String>,
    load: L,
    merge: M,
    r: Policy,
) -> bool {
    exists|sources: Seq<LayerSource>, layers: Vec<Policy>|
        #![trigger loaded(sources, load), text::answer(merge, layers)]
        {
            &&& context::sources_view(sources) == context::layer_sources(
                args.declarative@,
                args.package_declarative@,
                ctx,
                trusted,
            )
            &&& layers@ == loaded(sources, load)
            &&& hidden_in(args, ctx, trusted, text::answer(merge, layers), r)
        }
}

/// A remembered policy's key, with its directories as components.
pub struct MergedKeyView {
    pub home: Option<Seq<Seq<char>>>,
    pub project_root: Option<Seq<Seq<char>>>,
    pub package: Option<Seq<char>>,
    pub declarative_mtime: Option<MtimeKey>,
    pub home_policy_mtime: Option<MtimeKey>,
    pub project_policy_mtime: Option<MtimeKey>,
    pub package_base_mtime: Option<MtimeKey>,
    pub package_home_mtime: Option<MtimeKey>,
    pub package_project_mtime: Option<MtimeKey>,
}

impl View for MergedCacheKey {
    type V = MergedKeyView;

    open spec fn view(&self) -> MergedKeyView {
        MergedKeyView {
            home: paths::opt_components(self.home),
            project_root: paths::opt_components(self.project_root),
            package: text::opt_text(self.package),
            declarative_mtime: self.declarative_mtime,
            home_policy_mtime: self.home_policy_mtime,
            project_policy_mtime: self.project_policy_mtime,
            package_base_mtime: self.package_base_mtime,
            package_home_mtime: self.package_home_mtime,
            package_project_mtime: self.package_project_mtime,
        }
    }
}

fn same_mtime(a: Option<MtimeKey>, b: Option<MtimeKey>) -> (r: bool)
    ensures
        r == (a == b),
{
    match (a, b) {
        (Some(a), Some(b)) => a == b,
        (None, None) => true,
        _ => false,
    }
}

impl TableKey for MergedCacheKey {
    fn same(&self, other: &Self) -> (r: bool) {
        paths::same_opt_path(&self.home, &other.home) && paths::same_opt_path(
            &self.project_root,
            &other.project_root,
        ) && text::same_opt(&self.package, &other.package) && same_mtime(
            self.declarative_mtime,
            other.declarative_mtime,
        ) && same_mtime(self.home_policy_mtime, other.home_policy_mtime) && same_mtime(
            self.project_policy_mtime,
            other.project_policy_mtime,
        ) && same_mtime(self.package_base_mtime, other.package_base_mtime) && same_mtime(
            self.package_home_mtime,
            other.package_home_mtime,
        ) && same_mtime(self.package_project_mtime, other.package_project_mtime)
    }

    fn duplicate(&self) -> (r: Self) {
        MergedCacheKey {
            home: text::copy_opt(&self.home),
            project_root: text::copy_opt(&self.project_root),
            package: text::copy_opt(&self.package),
            declarative_mtime: self.declarative_mtime,
            home_policy_mtime: self.home_policy_mtime,
            project_policy_mtime: self.project_policy_mtime,
            package_base_mtime: self.package_base_mtime,
            package_home_mtime: self.package_home_mtime,
            package_project_mtime: self.package_project_mtime,
        }
    }
}

/// Merged policies, by what they were merged from.
pub struct MergedCache {
    pub entries: Table<MergedCacheKey, Policy>,
}

/// The key is the one of the context's policy.
pub open spec fn key_of<T: Fn(&String) -> Option<MtimeKey>>(
    args: PolicydArgs,
    ctx: ResolvedRequestContext,
    trusted: Option<String>,
    mtime: T,
    key: MergedCacheKey,
) -> bool {
    let files = context::context_package_files(args.package_declarative@, ctx);
    &&& key.home == ctx.paths.home
    &&& key.project_root == ctx.paths.project_root
    &&& key.package == ctx.package
    &&& context::changed_at(mtime, Some(args.declarative@), key.declarative_mtime)
    &&& context::changed_at(
        mtime,
        (match ctx.paths.home {
            Some(h) => Some(context::home_policy(h@)),
            None => None,
        }),
        key.home_policy_mtime,
    )
    &&& context::changed_at(mtime, context::project_file(ctx, trusted), key.project_policy_mtime)
    &&& context::changed_at(mtime, files.base, key.package_base_mtime)
    &&& context::changed_at(mtime, files.home, key.package_home_mtime)
    &&& context::changed_at(mtime, files.project, key.package_project_mtime)
}

/// The policy is the one that is remembered under the key, or else the merged one, which is then
/// remembered.
pub open spec fn recalled<L: Fn(&LayerSource) -> Policy, M: Fn(&Vec<Policy>) -> Policy>(
    args: PolicydArgs,
    ctx: ResolvedRequestContext,
    trusted: Option<String>,
    load: L,
    merge: M,
    key: MergedCacheKey,
    before: Map<MergedKeyView, Policy>,
    after: Map<MergedKeyView, Policy>,
    r: Policy,
) -> bool {
    if before.contains_key(key@) {
        r == before[key@] && after == before
    } else {
        merged_policy(args, ctx, trusted, load, merge, r) && after == before.insert(key@, r)
    }
}

impl MergedCache {
    pub open spec fn wf(&self) -> bool {
        self.entries.wf()
    }

    /// A cache that remembers nothing.
    pub fn new() -> (r: Self)
        ensures
            r.wf(),
            r.entries@ == Map::<MergedKeyView, Policy>::empty(),
    {
        MergedCache { entries: Table::new() }
    }

    /// Forget every policy.
    pub fn invalidate_merged_policy_cache(&mut self)
        ensures
            final(self).wf(),
            final(self).entries@ == Map::<MergedKeyView, Policy>::empty(),
    {
        self.entries = Table::new();
    }
}

impl PolicyStore {
    /// The policy that a context sees. `load` reads a policy file, `merge` merges layers;
    /// `trusted` is the project's own policy file, where it has a trusted one.
    pub fn build_merged_for<L: Fn(&LayerSource) -> Policy, M: Fn(&Vec<Policy>) -> Policy>(
        &self,
        ctx: &ResolvedRequestContext,
        trusted: &Option<String>,
        load: &L,
        merge: &M,
    ) -> (r: Policy)
        requires
            text::determined(*load),
            text::determined(*merge),
        ensures
            merged_policy(self.args, *ctx, *trusted, *load, *merge, r),
    {
        let sources = self.policy_layers(ctx, trusted);
        let mut layers: Vec<Policy> = Vec::new();
        let mut i: usize = 0;
        while i < sources.len()
            invariant
                text::determined(*load),
                i <= sources@.len(),
                layers@.len() == i,
                forall|j: int|
                    0 <= j < i ==> #[trigger] layers@[j] == text::answer(*load, sources@[j]),
            decreases sources@.len() - i,
        {
            let layer = load(&sources[i]);
            assert(layer == text::answer(*load, sources@[i as int]));
            layers.push(layer);
            i += 1;
        }
        assert(layers@ =~= loaded(sources@, *load));
        let merged = merge(&layers);
        assert(merged == text::answer(*merge, layers));
        let r = self.hide_policy_files(merged, ctx, trusted);
        assert(hidden_in(self.args, *ctx, *trusted, text::answer(*merge, layers), r));
        r
    }

    /// The policy that a context sees, remembered for as long as none of its files changes.
    /// `mtime` tells when a file was last changed.
    pub fn merged_for<
        'a,
        T: Fn(&String) -> Option<MtimeKey>,
        L: Fn(&LayerSource) -> Policy,
        M: Fn(&Vec<Policy>) -> Policy,
    >(
        &self,
        cache: &'a mut MergedCache,
        ctx: &ResolvedRequestContext,
        trusted: &Option<String>,
        mtime: &T,
        load: &L,
        merge: &M,
    ) -> (r: &'a Policy)
        requires
            old(cache).wf(),
            text::determined(*mtime),
            text::determined(*load),
            text::determined(*merge),
        ensures
            final(cache).wf(),
            exists|key: MergedCacheKey| #[trigger]
                key_of(self.args, *ctx, *trusted, *mtime, key) && recalled(
                    self.args,
                    *ctx,
                    *trusted,
                    *load,
                    *merge,
                    key,
                    old(cache).entries@,
                    final(cache).entries@,
                    *r,
                ),
    {
        let key = self.merged_cache_key(ctx, trusted, mtime);
        assert(key_of(self.args, *ctx, *trusted, *mtime, key));
        let at: usize = match cache.entries.find(&key) {
            Some(i) => i,
            None => {
                let built = self.build_merged_for(ctx, trusted, load, merge);
                let _ = cache.entries.insert(key.duplicate(), built);
                match cache.entries.find(&key) {
                    Some(i) => i,
                    None => 0,
                }
            },
        };
        &cache.entries.entries[at].1
    }
}

/// Once a policy has been merged, it is what every later look under the same key gives, whatever
/// the files have come to hold.
pub proof fn law_merged_policy_is_remembered<
    L: Fn(&LayerSource) -> Policy,
    M: Fn(&Vec<Policy>) -> Policy,
>(
    args: PolicydArgs,
    ctx: ResolvedRequestContext,
    trusted: Option<String>,
    load: L,
    merge: M,
    key: MergedCacheKey,
    later: MergedCacheKey,
    before: Map<MergedKeyView, Policy>,
    between: Map<MergedKeyView, Policy>,
    after: Map<MergedKeyView, Policy>,
    first: Policy,
    second: Policy,
)
    requires
        later@ == key@,
        recalled(args, ctx, trusted, load, merge, key, before, between, first),
        recalled(args, ctx, trusted, load, merge, later, between, after, second),
    ensures
        second == first,
        after == between,
{
}

} // verus!
