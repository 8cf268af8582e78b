use vstd::prelude::*;

verus! {

/// The proof-system backends, in catalog order.
#[derive(Clone, Copy, Debug, PartialEq, Eq, Structural)]
pub enum Adapter {
    Circom,
    Halo2,
}

/// Number of entries in the adapter catalog.
pub const ADAPTER_COUNT: usize = 2;

/// The deployment targets, in catalog order.
#[derive(Clone, Copy, Debug, PartialEq, Eq, Structural)]
pub enum Platform {
    Ios,
    Android,
    Web,
}

/// Number of entries in the platform catalog.
pub const PLATFORM_COUNT: usize = 3;

/// The adapter at position `i` of the catalog.
pub open spec fn adapter_at(i: int) -> Adapter {
    if i == 0 {
        Adapter::Circom
    } else {
        Adapter::Halo2
    }
}

/// The platform at position `i` of the catalog.
pub open spec fn platform_at(i: int) -> Platform {
    if i == 0 {
        Platform::Ios
    } else if i == 1 {
        Platform::Android
    } else {
        Platform::Web
    }
}

/// The label of each catalog entry, as stored in configuration.
pub open spec fn platform_label(p: Platform) -> Seq<char> {
    match p {
        Platform::Ios => "ios"@,
        Platform::Android => "android"@,
        Platform::Web => "web"@,
    }
}

pub open spec fn adapter_label(a: Adapter) -> Seq<char> {
    match a {
        Adapter::Circom => "circom"@,
        Adapter::Halo2 => "halo2"@,
    }
}

/// Whether `s` names an entry of the platform catalog.
pub open spec fn is_platform_label(s: Seq<char>) -> bool {
    s == "ios"@ || s == "android"@ || s == "web"@
}

/// The platform that a valid label names.
pub open spec fn platform_of(s: Seq<char>) -> Platform {
    if s == "ios"@ {
        Platform::Ios
    } else if s == "android"@ {
        Platform::Android
    } else {
        Platform::Web
    }
}

/// The architecture catalog of a platform; empty where the platform has none.
pub open spec fn arch_catalog(p: Platform) -> Seq<Seq<char>> {
    match p {
        Platform::Ios => seq!["aarch64-apple-ios"@, "aarch64-apple-ios-sim"@, "x86_64-apple-ios"@],
        Platform::Android => seq![
            "x86_64-linux-android"@,
            "i686-linux-android"@,
            "armv7-linux-androideabi"@,
            "aarch64-linux-android"@,
        ],
        Platform::Web => Seq::empty(),
    }
}

/// Whether a platform is built per CPU architecture.
pub open spec fn has_archs(p: Platform) -> bool {
    p != Platform::Web
}

/// The labels are pairwise distinct, so a label names one platform.
pub proof fn lemma_platform_labels()
    ensures
        forall|p: Platform| #[trigger] platform_of(platform_label(p)) == p,
        forall|p: Platform| is_platform_label(#[trigger] platform_label(p)),
        forall|s: Seq<char>|
            is_platform_label(s) ==> #[trigger] platform_label(platform_of(s)) == s,
{
    reveal_strlit("ios");
    reveal_strlit("android");
    reveal_strlit("web");
    assert("ios"@.len() != "android"@.len());
    assert("ios"@[0] != "web"@[0]);
    assert("android"@.len() != "web"@.len());
}

impl Adapter {
    pub open spec fn index(self) -> int {
        match self {
            Adapter::Circom => 0,
            Adapter::Halo2 => 1,
        }
    }

    /// The adapter at a catalog position.
    pub fn from_index(i: usize) -> (r: Adapter)
        requires
            i < ADAPTER_COUNT,
        ensures
            r == adapter_at(i as int),
            r.index() == i,
    {
        if i == 0 {
            Adapter::Circom
        } else {
            Adapter::Halo2
        }
    }

    /// The catalog position of the adapter.
    pub fn as_usize(self) -> (r: usize)
        ensures
            r == self.index(),
            adapter_at(r as int) == self,
    {
        match self {
            Adapter::Circom => 0,
            Adapter::Halo2 => 1,
        }
    }

    /// The adapter's label.
    pub fn as_str(self) -> (r: &'static str)
        ensures
            r@ == adapter_label(self),
    {
        match self {
            Adapter::Circom => "circom",
            Adapter::Halo2 => "halo2",
        }
    }
}

impl Platform {
    pub open spec fn index(self) -> int {
        match self {
            Platform::Ios => 0,
            Platform::Android => 1,
            Platform::Web => 2,
        }
    }

    /// The platform at a catalog position.
    pub fn from_index(i: usize) -> (r: Platform)
        requires
            i < PLATFORM_COUNT,
        ensures
            r == platform_at(i as int),
            r.index() == i,
    {
        if i == 0 {
            Platform::Ios
        } else if i == 1 {
            Platform::Android
        } else {
            Platform::Web
        }
    }

    /// The catalog position of the platform.
    pub fn as_usize(self) -> (r: usize)
        ensures
            r == self.index(),
            platform_at(r as int) == self,
    {
        match self {
            Platform::Ios => 0,
            Platform::Android => 1,
            Platform::Web => 2,
        }
    }

    /// The platform's label.
    pub fn as_str(self) -> (r: &'static str)
        ensures
            r@ == platform_label(self),
    {
        match self {
            Platform::Ios => "ios",
            Platform::Android => "android",
            Platform::Web => "web",
        }
    }

    /// The platform that a label names, or `None` for a label outside the catalog.
    pub fn from_label(s: &str) -> (r: Option<Platform>)
        ensures
            r == (if is_platform_label(s@) {
                Some(platform_of(s@))
            } else {
                None
            }),
    {
        let owned = String::from_str(s);
        if owned == String::from_str("ios") {
            Some(Platform::Ios)
        } else if owned == String::from_str("android") {
            Some(Platform::Android)
        } else if owned == String::from_str("web") {
            Some(Platform::Web)
        } else {
            None
        }
    }

    /// Whether the platform is built per CPU architecture.
    pub fn has_archs(self) -> (r: bool)
        ensures
            r == has_archs(self),
    {
        match self {
            Platform::Web => false,
            _ => true,
        }
    }

    /// The platform's architecture catalog, in catalog order.
    pub fn archs(self) -> (r: Vec<String>)
        ensures
            r@.len() == arch_catalog(self).len(),
            forall|i: int| 0 <= i < r@.len() ==> #[trigger] r@[i]@ == arch_catalog(self)[i],
    {
        match self {
            Platform::Ios => vec![
                String::from_str("aarch64-apple-ios"),
                String::from_str("aarch64-apple-ios-sim"),
                String::from_str("x86_64-apple-ios"),
            ],
            Platform::Android => vec![
                String::from_str("x86_64-linux-android"),
                String::from_str("i686-linux-android"),
                String::from_str("armv7-linux-androideabi"),
                String::from_str("aarch64-linux-android"),
            ],
            Platform::Web => Vec::new(),
        }
    }
}

} // verus!
