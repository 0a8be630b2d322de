//! What the marketplace answers to a wallet that asks which standards it
//! supports and from which origins its users sign in.

use crate::text::texts;
use vstd::prelude::*;

verus! {

/// A standard that the marketplace supports.
#[derive(Debug, PartialEq, Eq)]
pub struct SupportedStandard {
    pub url: String,
    pub name: String,
}

/// What a `SupportedStandard` stands for.
pub struct SupportedStandardView {
    pub url: Seq<char>,
    pub name: Seq<char>,
}

impl View for SupportedStandard {
    type V = SupportedStandardView;

    open spec fn view(&self) -> SupportedStandardView {
        SupportedStandardView { url: self.url@, name: self.name@ }
    }
}

impl Clone for SupportedStandard {
    fn clone(&self) -> (copy: Self)
        ensures
            copy == *self,
    {
        SupportedStandard { url: self.url.clone(), name: self.name.clone() }
    }
}

/// The origins from which users sign in.
#[derive(Debug)]
pub struct Icrc28TrustedOriginsResponse {
    pub trusted_origins: Vec<String>,
}

impl View for Icrc28TrustedOriginsResponse {
    type V = Seq<Seq<char>>;

    open spec fn view(&self) -> Seq<Seq<char>> {
        texts(self.trusted_origins@)
    }
}

impl Clone for Icrc28TrustedOriginsResponse {
    fn clone(&self) -> (copy: Self)
        ensures
            copy@ == self@,
    {
        let trusted_origins = self.trusted_origins.clone();
        Icrc28TrustedOriginsResponse { trusted_origins }
    }
}

/// The standards that the marketplace supports: ICRC-10 and ICRC-28.
pub open spec fn supported_standards() -> Seq<SupportedStandardView> {
    seq![
        SupportedStandardView {
            url: "https://github.com/dfinity/ICRC/blob/main/ICRCs/ICRC-10/ICRC-10.md"@,
            name: "ICRC-10"@,
        },
        SupportedStandardView {
            url: "https://github.com/dfinity/wg-identity-authentication/blob/main/topics/icrc_28_trusted_origins.md"@,
            name: "ICRC-28"@,
        },
    ]
}

/// The origins from which users sign in.
pub open spec fn trusted_origins() -> Seq<Seq<char>> {
    seq![
        "https://your-frontend-canister-id.icp0.io"@,
        "https://your-frontend-canister-id.raw.icp0.io"@,
        "https://your-frontend-canister-id.ic0.app"@,
        "https://your-frontend-canister-id.raw.ic0.app"@,
        "https://your-frontend-canister-id.icp0.icp-api.io"@,
        "https://your-frontend-canister-id.icp-api.io"@,
        "https://yourcustomdomain.com"@,
        "https://yourothercustomdomain.com"@,
    ]
}

/// The standards that the marketplace supports.
pub fn icrc10_supported_standards() -> (standards: Vec<SupportedStandard>)
    ensures
        standards@.map_values(|s: SupportedStandard| s@) == supported_standards(),
{
    let mut standards: Vec<SupportedStandard> = Vec::new();
    standards.push(
        SupportedStandard {
            url: "https://github.com/dfinity/ICRC/blob/main/ICRCs/ICRC-10/ICRC-10.md".to_owned(),
            name: "ICRC-10".to_owned(),
        },
    );
    standards.push(
        SupportedStandard {
            url: "https://github.com/dfinity/wg-identity-authentication/blob/main/topics/icrc_28_trusted_origins.md".to_owned(),
            name: "ICRC-28".to_owned(),
        },
    );
    standards
}

/// The origins from which users sign in.
pub fn icrc28_trusted_origins() -> (response: Icrc28TrustedOriginsResponse)
    ensures
        response@ == trusted_origins(),
{
    let mut origins: Vec<String> = Vec::new();
    origins.push("https://your-frontend-canister-id.icp0.io".to_owned());
    origins.push("https://your-frontend-canister-id.raw.icp0.io".to_owned());
    origins.push("https://your-frontend-canister-id.ic0.app".to_owned());
    origins.push("https://your-frontend-canister-id.raw.ic0.app".to_owned());
    origins.push("https://your-frontend-canister-id.icp0.icp-api.io".to_owned());
    origins.push("https://your-frontend-canister-id.icp-api.io".to_owned());
    origins.push("https://yourcustomdomain.com".to_owned());
    origins.push("https://yourothercustomdomain.com".to_owned());
    Icrc28TrustedOriginsResponse { trusted_origins: origins }
}

} // verus!
