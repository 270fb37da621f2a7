//! The release catalog: narrowing what upstream offers to what suits the
//! host, and naming where a download comes from.

use crate::model::{GAsset, GRelease};
use crate::platform::Platform;
use crate::text::{chars_of, contains_pattern, occurs_in};
use vstd::prelude::*;
use vstd::string::*;

verus! {

/// The marker of the graphical variant of the toolset, which is never
/// installed.
pub open spec fn gui_marker() -> Seq<char> {
    seq!['g', 'u', 'i']
}

/// Whether an asset of the given name suits a host: the name holds the
/// host's system and architecture, and does not hold the marker of the
/// graphical variant.
pub open spec fn suits(name: Seq<char>, os: Seq<char>, arch: Seq<char>) -> bool {
    !occurs_in(gui_marker(), name) && occurs_in(os, name) && occurs_in(arch, name)
}

/// The test that keeps the assets that suit a host.
pub open spec fn suits_host(os: Seq<char>, arch: Seq<char>) -> spec_fn(GAsset) -> bool {
    |asset: GAsset| suits(asset.name@, os, arch)
}

/// Whether `narrow` is `full` with its assets narrowed to those that suit a
/// host, in their order, and everything else as it was.
pub open spec fn narrowed(narrow: GRelease, full: GRelease, os: Seq<char>, arch: Seq<char>) -> bool {
    &&& narrow.tag_name == full.tag_name
    &&& narrow.name == full.name
    &&& narrow.prerelease == full.prerelease
    &&& narrow.draft == full.draft
    &&& narrow.created_at == full.created_at
    &&& narrow.published_at == full.published_at
    &&& narrow.id == full.id
    &&& narrow.assets@ == full.assets@.filter(suits_host(os, arch))
}

/// Where a download comes from: the address itself, or the address behind a
/// mirror and a slash.
pub open spec fn resolved_url(url: Seq<char>, mirror: Option<Seq<char>>) -> Seq<char> {
    match mirror {
        Some(base) => base + seq!['/'] + url,
        None => url,
    }
}

/// Whether the name of an asset suits the host.
pub fn asset_suits(name: &str, platform: &Platform) -> (r: bool)
    ensures
        r == suits(name@, platform.os@, platform.arch@),
{
    proof {
        reveal_strlit("gui");
        assert("gui"@ =~= gui_marker());
    }
    let name = chars_of(name);
    !contains_pattern(&name, &chars_of("gui")) && contains_pattern(
        &name,
        &chars_of(platform.os.as_str()),
    ) && contains_pattern(&name, &chars_of(platform.arch.as_str()))
}

/// Keeps the assets that suit the host, in their order.
pub fn filter_release_with_platform(assets: Vec<GAsset>, platform: &Platform) -> (r: Vec<GAsset>)
    ensures
        r@ == assets@.filter(suits_host(platform.os@, platform.arch@)),
{
    let ghost all = assets@;
    let ghost keep = suits_host(platform.os@, platform.arch@);
    let mut kept: Vec<GAsset> = Vec::new();
    proof {
        reveal(Seq::filter);
        assert(all.take(0).filter(keep) =~= Seq::<GAsset>::empty());
    }
    for asset in iter: assets
        invariant
            iter.seq() == all,
            keep == suits_host(platform.os@, platform.arch@),
            kept@ == all.take(iter.index()).filter(keep),
    {
        let ghost i = iter.index();
        proof {
            reveal(Seq::filter);
            assert(all.take(i + 1).drop_last() == all.take(i));
            assert(all.take(i + 1).last() == asset);
        }
        if asset_suits(asset.name.as_str(), platform) {
            kept.push(asset);
        }
    }
    assert(all.take(all.len() as int) == all);
    kept
}

/// The releases as upstream lists them, each with its assets narrowed to
/// those that suit the host when `filter_platform` is set.
pub fn easytier_releases(filter_platform: bool, releases: Vec<GRelease>, platform: &Platform) -> (r:
    Vec<GRelease>)
    ensures
        !filter_platform ==> r == releases,
        filter_platform ==> r@.len() == releases@.len() && forall|i: int|
            0 <= i < r@.len() ==> narrowed(
                #[trigger] r@[i],
                releases@[i],
                platform.os@,
                platform.arch@,
            ),
{
    if !filter_platform {
        return releases;
    }
    let ghost all = releases@;
    let mut narrow: Vec<GRelease> = Vec::new();
    for release in iter: releases
        invariant
            iter.seq() == all,
            narrow@.len() == iter.index(),
            forall|i: int|
                0 <= i < narrow@.len() ==> narrowed(
                    #[trigger] narrow@[i],
                    all[i],
                    platform.os@,
                    platform.arch@,
                ),
    {
        let GRelease {
            tag_name,
            name,
            prerelease,
            draft,
            created_at,
            published_at,
            id,
            assets,
        } = release;
        let assets = filter_release_with_platform(assets, platform);
        narrow.push(
            GRelease { tag_name, name, prerelease, draft, created_at, published_at, id, assets },
        );
    }
    narrow
}

/// The address to download from: `url` itself, or `url` behind the mirror.
pub fn resolve_url(url: &str, mirror: Option<&str>) -> (r: String)
    ensures
        r@ == resolved_url(
            url@,
            match mirror {
                Some(base) => Some(base@),
                None => None,
            },
        ),
{
    match mirror {
        Some(base) => {
            proof {
                reveal_strlit("/");
                assert("/"@ =~= seq!['/']);
            }
            String::from_str(base).concat("/").concat(url)
        },
        None => String::from_str(url),
    }
}

} // verus!
