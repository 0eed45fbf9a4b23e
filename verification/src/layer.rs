//! Software bills of materials, per container and per image layer.

use vstd::prelude::*;

verus! {

/// The packages that one image layer holds.
#[derive(Debug, Clone, PartialEq, Eq)]
pub struct Package {
    pub name: String,
    pub version: String,
    pub ecosystem: String,
    pub source_path: String,
    pub binaries: Vec<String>,
}

/// The model of a [`Package`]: its strings as character sequences.
pub struct PackageModel {
    pub name: Seq<char>,
    pub version: Seq<char>,
    pub ecosystem: Seq<char>,
    pub source_path: Seq<char>,
    pub binaries: Seq<Seq<char>>,
}

impl View for Package {
    type V = PackageModel;

    open spec fn view(&self) -> PackageModel {
        PackageModel {
            name: self.name@,
            version: self.version@,
            ecosystem: self.ecosystem@,
            source_path: self.source_path@,
            binaries: self.binaries.deep_view(),
        }
    }
}

impl DeepView for Package {
    type V = PackageModel;

    open spec fn deep_view(&self) -> PackageModel {
        self@
    }
}

/// One image layer: its digest, its depth (0 is the base layer) and its packages.
#[derive(Debug, Clone, PartialEq, Eq)]
pub struct LayerSbom {
    pub digest: String,
    pub depth: usize,
    pub packages: Vec<Package>,
}

/// The model of a [`LayerSbom`].
pub struct LayerModel {
    pub digest: Seq<char>,
    pub depth: usize,
    pub packages: Seq<PackageModel>,
}

impl View for LayerSbom {
    type V = LayerModel;

    open spec fn view(&self) -> LayerModel {
        LayerModel { digest: self.digest@, depth: self.depth, packages: self.packages.deep_view() }
    }
}

impl DeepView for LayerSbom {
    type V = LayerModel;

    open spec fn deep_view(&self) -> LayerModel {
        self@
    }
}

/// The bill of materials of one container.
#[derive(Debug, Clone, PartialEq, Eq)]
pub struct ContainerSbom {
    pub container: String,
    pub image: Option<String>,
    pub layers: Vec<LayerSbom>,
}

/// The model of a [`ContainerSbom`].
pub struct ContainerSbomModel {
    pub container: Seq<char>,
    pub image: Option<Seq<char>>,
    pub layers: Seq<LayerModel>,
}

impl View for ContainerSbom {
    type V = ContainerSbomModel;

    open spec fn view(&self) -> ContainerSbomModel {
        ContainerSbomModel {
            container: self.container@,
            image: self.image.deep_view(),
            layers: self.layers.deep_view(),
        }
    }
}

impl DeepView for ContainerSbom {
    type V = ContainerSbomModel;

    open spec fn deep_view(&self) -> ContainerSbomModel {
        self@
    }
}

/// The bills of materials of the containers of one workload.
#[derive(Debug, Clone, PartialEq, Eq)]
pub struct Sbom {
    pub containers: Vec<ContainerSbom>,
}

impl View for Sbom {
    type V = Seq<ContainerSbomModel>;

    open spec fn view(&self) -> Seq<ContainerSbomModel> {
        self.containers.deep_view()
    }
}

/// A container bill of materials as a local SBOM file states it: the
/// container name and image are optional there.
#[derive(Debug, Clone, PartialEq, Eq)]
pub struct LocalContainerSbom {
    pub container: Option<String>,
    pub image: Option<String>,
    pub layers: Vec<LayerSbom>,
}

impl Sbom {
    /// A bill of materials without containers.
    pub fn empty() -> (r: Self)
        ensures
            r@ == Seq::<ContainerSbomModel>::empty(),
    {
        Sbom { containers: Vec::new() }
    }

    /// A bill of materials of exactly one container.
    pub fn for_container(container: ContainerSbom) -> (r: Self)
        ensures
            r@ == seq![container@],
    {
        let mut containers = Vec::new();
        containers.push(container);
        let r = Sbom { containers };
        assert(r@ =~= seq![container@]);
        r
    }

    /// Appends the containers of `other`, in their order.
    pub fn extend(&mut self, other: Sbom)
        ensures
            final(self)@ == old(self)@ + other@,
    {
        let mut other = other;
        let ghost before = self@;
        let ghost added = other@;
        self.containers.append(&mut other.containers);
        assert(self@ =~= before + added);
    }
}

impl ContainerSbom {
    /// A container without layers.
    pub fn empty(container: String, image: Option<String>) -> (r: Self)
        ensures
            r@.container == container@,
            r@.image == image.deep_view(),
            r@.layers == Seq::<LayerModel>::empty(),
    {
        let r = ContainerSbom { container, image, layers: Vec::new() };
        assert(r@.layers =~= Seq::<LayerModel>::empty());
        r
    }

    /// The container bill of materials that a local SBOM file gives: the
    /// file's container name and image where it states them, else the ones
    /// that the manifest gives.
    pub fn from_local(local: LocalContainerSbom, container: &str, image: Option<String>) -> (r: Self)
        ensures
            r@.container == (match local.container {
                Some(name) => name@,
                None => container@,
            }),
            r@.image == (match local.image {
                Some(own) => Some(own@),
                None => image.deep_view(),
            }),
            r@.layers == local.layers.deep_view(),
    {
        let name = match local.container {
            Some(name) => name,
            None => container.to_owned(),
        };
        let image = match local.image {
            Some(own) => Some(own),
            None => image,
        };
        ContainerSbom { container: name, image, layers: local.layers }
    }
}

/// An exact copy of a string list.
pub fn copy_strings(v: &Vec<String>) -> (r: Vec<String>)
    ensures
        r@ == v@,
        r.deep_view() == v.deep_view(),
{
    let mut r: Vec<String> = Vec::new();
    let mut i: usize = 0;
    while i < v.len()
        invariant
            i <= v.len(),
            r@ == v@.take(i as int),
        decreases v.len() - i,
    {
        let item = v[i].clone();
        r.push(item);
        i = i + 1;
        assert(r@ =~= v@.take(i as int));
    }
    assert(v@.take(v.len() as int) =~= v@);
    r
}

impl Package {
    /// An exact copy.
    pub fn duplicate(&self) -> (r: Self)
        ensures
            r@ == self@,
    {
        Package {
            name: self.name.clone(),
            version: self.version.clone(),
            ecosystem: self.ecosystem.clone(),
            source_path: self.source_path.clone(),
            binaries: copy_strings(&self.binaries),
        }
    }
}

} // verus!
