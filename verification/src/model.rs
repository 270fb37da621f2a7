//! The values that travel between the library and what surrounds it:
//! releases and their assets, installed versions, and the response envelope.

use vstd::prelude::*;

verus! {

/// A published release of the upstream project.
#[derive(Debug)]
pub struct GRelease {
    pub tag_name: String,
    pub name: String,
    pub prerelease: bool,
    pub draft: bool,
    pub created_at: String,
    pub published_at: String,
    pub id: u64,
    pub assets: Vec<GAsset>,
}

/// One downloadable file of a release.
#[derive(Debug)]
pub struct GAsset {
    pub name: String,
    pub size: usize,
    pub download_count: u64,
    pub browser_download_url: String,
    pub created_at: String,
    pub updated_at: String,
}

/// The versions that the two installed executables report. A slot is `None`
/// where the executable is missing or its version cannot be read.
#[derive(Debug)]
pub struct EVersion {
    pub core: Option<String>,
    pub cli: Option<String>,
}

/// One installation of the toolset, as the status surface shows it.
#[derive(Debug)]
pub struct REasytier {
    pub instance_id: Option<String>,
    pub instance_name: Option<String>,
    pub running: bool,
    pub version: EVersion,
}

/// What the status surface tells of the service and its installations.
#[derive(Debug)]
pub struct RInfo {
    pub version: String,
    pub os: String,
    pub arch: String,
    pub list: Vec<REasytier>,
}

/// What a repair tells: the versions found after it.
#[derive(Debug)]
pub struct RRepair {
    pub version: EVersion,
}

/// The envelope of every response: a code, a message and the data.
#[derive(Debug)]
pub struct Resp<T> {
    pub code: Option<i64>,
    pub msg: Option<String>,
    pub data: Option<T>,
}

/// An optional text by its characters.
pub open spec fn text_view(text: Option<String>) -> Option<Seq<char>> {
    match text {
        Some(t) => Some(t@),
        None => None,
    }
}

impl View for EVersion {
    type V = (Option<Seq<char>>, Option<Seq<char>>);

    /// The two version texts, the primary executable's first.
    open spec fn view(&self) -> (Option<Seq<char>>, Option<Seq<char>>) {
        (text_view(self.core), text_view(self.cli))
    }
}

impl Default for EVersion {
    fn default() -> (r: EVersion)
        ensures
            r.core is None,
            r.cli is None,
    {
        EVersion { core: None, cli: None }
    }
}

impl Default for REasytier {
    fn default() -> (r: REasytier)
        ensures
            r.instance_id is None,
            r.instance_name is None,
            !r.running,
            r.version.core is None,
            r.version.cli is None,
    {
        REasytier {
            instance_id: None,
            instance_name: None,
            running: false,
            version: EVersion { core: None, cli: None },
        }
    }
}

impl Default for RInfo {
    fn default() -> (r: RInfo)
        ensures
            r.version@.len() == 0,
            r.os@.len() == 0,
            r.arch@.len() == 0,
            r.list@.len() == 0,
    {
        RInfo { version: String::new(), os: String::new(), arch: String::new(), list: Vec::new() }
    }
}

impl<T> Default for Resp<T> {
    fn default() -> (r: Resp<T>)
        ensures
            r.code is None,
            r.msg is None,
            r.data is None,
    {
        Resp { code: None, msg: None, data: None }
    }
}

impl Clone for GAsset {
    fn clone(&self) -> (r: GAsset)
        ensures
            r == *self,
    {
        GAsset {
            name: self.name.clone(),
            size: self.size,
            download_count: self.download_count,
            browser_download_url: self.browser_download_url.clone(),
            created_at: self.created_at.clone(),
            updated_at: self.updated_at.clone(),
        }
    }
}

impl Clone for GRelease {
    fn clone(&self) -> (r: GRelease)
        ensures
            r.tag_name == self.tag_name,
            r.name == self.name,
            r.prerelease == self.prerelease,
            r.draft == self.draft,
            r.created_at == self.created_at,
            r.published_at == self.published_at,
            r.id == self.id,
            r.assets@ == self.assets@,
    {
        let mut assets: Vec<GAsset> = Vec::new();
        let mut i: usize = 0;
        while i < self.assets.len()
            invariant
                i <= self.assets.len(),
                assets@ == self.assets@.take(i as int),
            decreases self.assets.len() - i,
        {
            assets.push(self.assets[i].clone());
            assert(self.assets@.take(i + 1) == self.assets@.take(i as int).push(
                self.assets@[i as int],
            ));
            i = i + 1;
        }
        assert(self.assets@.take(self.assets@.len() as int) == self.assets@);
        GRelease {
            tag_name: self.tag_name.clone(),
            name: self.name.clone(),
            prerelease: self.prerelease,
            draft: self.draft,
            created_at: self.created_at.clone(),
            published_at: self.published_at.clone(),
            id: self.id,
            assets,
        }
    }
}

impl Clone for EVersion {
    fn clone(&self) -> (r: EVersion)
        ensures
            r == *self,
    {
        EVersion { core: self.core.clone(), cli: self.cli.clone() }
    }
}

impl Clone for REasytier {
    fn clone(&self) -> (r: REasytier)
        ensures
            r == *self,
    {
        REasytier {
            instance_id: self.instance_id.clone(),
            instance_name: self.instance_name.clone(),
            running: self.running,
            version: self.version.clone(),
        }
    }
}

impl Clone for RRepair {
    fn clone(&self) -> (r: RRepair)
        ensures
            r == *self,
    {
        RRepair { version: self.version.clone() }
    }
}

impl Clone for RInfo {
    fn clone(&self) -> (r: RInfo)
        ensures
            r.version == self.version,
            r.os == self.os,
            r.arch == self.arch,
            r.list@ == self.list@,
    {
        let mut list: Vec<REasytier> = Vec::new();
        let mut i: usize = 0;
        while i < self.list.len()
            invariant
                i <= self.list.len(),
                list@ == self.list@.take(i as int),
            decreases self.list.len() - i,
        {
            list.push(self.list[i].clone());
            assert(self.list@.take(i + 1) == self.list@.take(i as int).push(self.list@[i as int]));
            i = i + 1;
        }
        assert(self.list@.take(self.list@.len() as int) == self.list@);
        RInfo { version: self.version.clone(), os: self.os.clone(), arch: self.arch.clone(), list }
    }
}

impl<T: Clone> Clone for Resp<T> {
    fn clone(&self) -> (r: Resp<T>)
        ensures
            r.code == self.code,
            r.msg == self.msg,
            r.data is Some <==> self.data is Some,
    {
        Resp { code: self.code, msg: self.msg.clone(), data: self.data.clone() }
    }
}

} // verus!
