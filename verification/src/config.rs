//! The build configuration under which the compiled files are resolved.
use vstd::prelude::*;

verus! {

/// The feature selection as it was given on the command line.
#[derive(Debug, PartialEq, Eq)]
pub struct FeaturesArgs {
    pub all_features: bool,
    pub features: Vec<String>,
    pub no_default_features: bool,
}

/// The build configuration that the resolver of compiled files is handed.
#[derive(Debug, PartialEq, Eq)]
pub struct ScanConfig {
    pub features: Vec<String>,
    pub all_features: bool,
    pub no_default_features: bool,
}

/// What a `ScanConfig` denotes.
pub struct ScanConfigView {
    pub features: Seq<Seq<char>>,
    pub all_features: bool,
    pub no_default_features: bool,
}

impl DeepView for ScanConfig {
    type V = ScanConfigView;

    open spec fn deep_view(&self) -> ScanConfigView {
        ScanConfigView {
            features: self.features.deep_view(),
            all_features: self.all_features,
            no_default_features: self.no_default_features,
        }
    }
}

/// A copy of `texts`, text by text.
pub fn clone_texts(texts: &Vec<String>) -> (copy: Vec<String>)
    ensures
        copy.deep_view() == texts.deep_view(),
{
    let mut copy: Vec<String> = Vec::new();
    let mut i: usize = 0;
    while i < texts.len()
        invariant
            i <= texts.len(),
            copy.deep_view() == texts.deep_view().take(i as int),
        decreases texts.len() - i,
    {
        let ghost prev = copy.deep_view();
        copy.push(texts[i].clone());
        assert(copy.deep_view() == prev.push(texts.deep_view()[i as int]));
        assert(texts.deep_view().take(i + 1) == texts.deep_view().take(i as int).push(
            texts.deep_view()[i as int],
        ));
        i += 1;
    }
    assert(texts.deep_view().take(texts.len() as int) == texts.deep_view());
    copy
}

/// The build configuration for a feature selection: the features as they
/// were given, in their order, and the two flags unchanged. Whether the
/// flags go together is for the resolver to say.
pub fn build_compile_options(args: &FeaturesArgs) -> (config: ScanConfig)
    ensures
        config.deep_view() == (ScanConfigView {
            features: args.features.deep_view(),
            all_features: args.all_features,
            no_default_features: args.no_default_features,
        }),
{
    ScanConfig {
        features: clone_texts(&args.features),
        all_features: args.all_features,
        no_default_features: args.no_default_features,
    }
}

} // verus!
