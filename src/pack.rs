//! The packing view of a workspace: the selected package and its configuration.
use vstd::prelude::*;
use crate::config::{config_at, load_config, find_section, PackConfig, PackConfigView};
use crate::error::{PackError, PackErrorView};
use crate::package::{find_package, resolved, Metadata, Package};
use crate::value::{lookup_path, Value};

verus! {

/// Where the packing section lies in a package's `package.metadata` table.
pub open spec fn pack_path() -> Seq<&'static str> {
    seq!["pack"]
}

/// What building a [`CargoPack`] gives: the selected package's index and its
/// configuration, or the first error met.
pub open spec fn pack_of(metadata: Metadata, package_name: Option<Seq<char>>) -> Result<(int, PackConfigView), PackErrorView> {
    match resolved(metadata, package_name) {
        Err(e) => Err(e),
        Ok(i) => match config_at(metadata.packages@[i].metadata, pack_path(), true) {
            Err(e) => Err(e),
            Ok(c) => Ok((i, c)),
        },
    }
}

/// The packing section of the package that `package_name` selects, or the
/// first error met.
pub open spec fn section_of(metadata: Metadata, package_name: Option<Seq<char>>) -> Result<Value, PackErrorView> {
    match resolved(metadata, package_name) {
        Err(e) => Err(e),
        Ok(i) => match lookup_path(metadata.packages@[i].metadata, pack_path()) {
            Some(s) => Ok(s),
            None => Err(PackErrorView::MissingSection),
        },
    }
}

/// The packing view of a workspace.
pub struct CargoPack {
    package_name: Option<String>,
    pack_config: PackConfig,
    metadata: Metadata,
}

impl CargoPack {
    /// The name that selected the package, if one was given.
    pub closed spec fn spec_package_name(&self) -> Option<String> {
        self.package_name
    }

    /// The decoded packing configuration.
    pub closed spec fn spec_config(&self) -> PackConfig {
        self.pack_config
    }

    /// The workspace's metadata.
    pub closed spec fn spec_metadata(&self) -> Metadata {
        self.metadata
    }

    /// Selects the package that `package_name` names (or the workspace's
    /// package, without a name) and decodes its packing configuration; a
    /// missing packing section is an error.
    pub fn new(metadata: Metadata, package_name: Option<String>) -> (r: Result<CargoPack, PackError>)
        ensures
            match r {
                Ok(p) => pack_of(metadata, package_name.deep_view()) is Ok
                    && p.spec_config()@ == pack_of(metadata, package_name.deep_view())->Ok_0.1
                    && p.spec_metadata() == metadata
                    && p.spec_package_name() == package_name,
                Err(e) => pack_of(metadata, package_name.deep_view()) == Err::<(int, PackConfigView), PackErrorView>(e@),
            },
    {
        let pack_config = match Self::decode_pack_config_static(&metadata, &package_name) {
            Ok(c) => c,
            Err(e) => {
                return Err(e);
            },
        };
        Ok(CargoPack { package_name, pack_config, metadata })
    }

    /// The workspace's metadata.
    pub fn metadata(&self) -> (r: &Metadata)
        ensures
            *r == self.spec_metadata(),
    {
        &self.metadata
    }

    /// The decoded packing configuration.
    pub fn config(&self) -> (r: &PackConfig)
        ensures
            *r == self.spec_config(),
    {
        &self.pack_config
    }

    /// The selected package.
    pub fn package(&self) -> (r: Result<&Package, PackError>)
        ensures
            match r {
                Ok(p) => resolved(self.spec_metadata(), self.spec_package_name().deep_view()) is Ok
                    && *p == self.spec_metadata().packages@[resolved(self.spec_metadata(), self.spec_package_name().deep_view())->Ok_0],
                Err(e) => resolved(self.spec_metadata(), self.spec_package_name().deep_view()) == Err::<int, PackErrorView>(e@),
            },
    {
        find_package(&self.metadata, Self::name_ref(&self.package_name))
    }

    fn name_ref(name: &Option<String>) -> (r: Option<&str>)
        ensures
            r.deep_view() == name.deep_view(),
    {
        match name {
            Some(s) => Some(s.as_str()),
            None => None,
        }
    }

    fn decode_pack_config_static(metadata: &Metadata, package_name: &Option<String>) -> (r: Result<PackConfig, PackError>)
        ensures
            match r {
                Ok(c) => pack_of(*metadata, package_name.deep_view()) is Ok
                    && c@ == pack_of(*metadata, package_name.deep_view())->Ok_0.1,
                Err(e) => pack_of(*metadata, package_name.deep_view()) == Err::<(int, PackConfigView), PackErrorView>(e@),
            },
    {
        let package = match find_package(metadata, Self::name_ref(package_name)) {
            Ok(p) => p,
            Err(e) => {
                return Err(e);
            },
        };
        let path: [&str; 1] = ["pack"];
        assert(path@ =~= pack_path());
        load_config(&package.metadata, path.as_slice(), true)
    }

    /// The selected package's packing section, for decoding into a
    /// configuration of the caller's own.
    pub fn decode_from_manifest(&self) -> (r: Result<&Value, PackError>)
        ensures
            match r {
                Ok(s) => section_of(self.spec_metadata(), self.spec_package_name().deep_view()) == Ok::<Value, PackErrorView>(*s),
                Err(e) => section_of(self.spec_metadata(), self.spec_package_name().deep_view()) == Err::<Value, PackErrorView>(e@),
            },
    {
        let package = match self.package() {
            Ok(p) => p,
            Err(e) => {
                return Err(e);
            },
        };
        let path: [&str; 1] = ["pack"];
        assert(path@ =~= pack_path());
        find_section(&package.metadata, path.as_slice())
    }

    /// The files to pack besides the binaries.
    pub fn files(&self) -> (r: &[String])
        ensures
            r@ == self.spec_config().files@,
    {
        self.pack_config.files.as_slice()
    }
}

} // verus!
