use vstd::prelude::*;
use crate::principal::Principal;
use crate::text::{clone_texts, texts};

verus! {

/// The classification under which a contract is listed.
#[derive(Clone, Copy, Debug, PartialEq, Eq, Structural)]
pub enum Category {
    DeFi,
    NFT,
    DAO,
    Gaming,
    Utility,
    Oracle,
    Other,
}

impl Category {
    /// The number that stands for the category in keys.
    pub open spec fn spec_code(self) -> u32 {
        match self {
            Category::DeFi => 0,
            Category::NFT => 1,
            Category::DAO => 2,
            Category::Gaming => 3,
            Category::Utility => 4,
            Category::Oracle => 5,
            Category::Other => 6,
        }
    }

    /// The number that stands for the category in keys.
    #[verifier::when_used_as_spec(spec_code)]
    pub fn code(self) -> (r: u32)
        ensures
            r == self.spec_code(),
    {
        match self {
            Category::DeFi => 0,
            Category::NFT => 1,
            Category::DAO => 2,
            Category::Gaming => 3,
            Category::Utility => 4,
            Category::Oracle => 5,
            Category::Other => 6,
        }
    }
}

/// Why a registry operation was refused.
#[derive(Clone, Copy, Debug, PartialEq, Eq, PartialOrd, Ord, Structural)]
pub enum Error {
    ContractAlreadyExists,
    ContractNotFound,
    UnauthorizedUpdate,
    InvalidMetadata,
    InvalidWasmHash,
    UnauthorizedVerification,
}

impl Error {
    /// The number under which the error is reported.
    pub fn code(self) -> (r: u32)
        ensures
            r == match self {
                Error::ContractAlreadyExists => 1u32,
                Error::ContractNotFound => 2u32,
                Error::UnauthorizedUpdate => 3u32,
                Error::InvalidMetadata => 4u32,
                Error::InvalidWasmHash => 5u32,
                Error::UnauthorizedVerification => 6u32,
            },
    {
        match self {
            Error::ContractAlreadyExists => 1,
            Error::ContractNotFound => 2,
            Error::UnauthorizedUpdate => 3,
            Error::InvalidMetadata => 4,
            Error::InvalidWasmHash => 5,
            Error::UnauthorizedVerification => 6,
        }
    }
}

/// What a publisher submits about a contract.
#[derive(Debug, PartialEq)]
pub struct PublishParams {
    pub wasm_hash: [u8; 32],
    pub name: String,
    pub description: String,
    pub version: String,
    pub category: Category,
    pub tags: Vec<String>,
    pub source_url: String,
    pub documentation_url: String,
    pub license: String,
}

/// The mathematical content of a [`PublishParams`].
pub ghost struct PublishParamsView {
    pub wasm_hash: Seq<u8>,
    pub name: Seq<char>,
    pub description: Seq<char>,
    pub version: Seq<char>,
    pub category: Category,
    pub tags: Seq<Seq<char>>,
    pub source_url: Seq<char>,
    pub documentation_url: Seq<char>,
    pub license: Seq<char>,
}

impl View for PublishParams {
    type V = PublishParamsView;

    open spec fn view(&self) -> PublishParamsView {
        PublishParamsView {
            wasm_hash: self.wasm_hash@,
            name: self.name@,
            description: self.description@,
            version: self.version@,
            category: self.category,
            tags: texts(self.tags@),
            source_url: self.source_url@,
            documentation_url: self.documentation_url@,
            license: self.license@,
        }
    }
}

impl Clone for PublishParams {
    fn clone(&self) -> (r: Self)
        ensures
            r@ == self@,
    {
        PublishParams {
            wasm_hash: self.wasm_hash,
            name: self.name.clone(),
            description: self.description.clone(),
            version: self.version.clone(),
            category: self.category,
            tags: clone_texts(&self.tags),
            source_url: self.source_url.clone(),
            documentation_url: self.documentation_url.clone(),
            license: self.license.clone(),
        }
    }
}

/// The registry's record of one published contract.
#[derive(Debug, PartialEq)]
pub struct ContractMetadata {
    pub id: u32,
    pub wasm_hash: [u8; 32],
    pub name: String,
    pub description: String,
    pub version: String,
    pub author: Principal,
    pub category: Category,
    pub tags: Vec<String>,
    pub source_url: String,
    pub documentation_url: String,
    pub license: String,
    pub published_at: u64,
    pub updated_at: u64,
    pub total_deployments: u32,
    pub verified: bool,
}

/// The mathematical content of a [`ContractMetadata`].
pub ghost struct ContractMetadataView {
    pub id: u32,
    pub wasm_hash: Seq<u8>,
    pub name: Seq<char>,
    pub description: Seq<char>,
    pub version: Seq<char>,
    pub author: Seq<char>,
    pub category: Category,
    pub tags: Seq<Seq<char>>,
    pub source_url: Seq<char>,
    pub documentation_url: Seq<char>,
    pub license: Seq<char>,
    pub published_at: u64,
    pub updated_at: u64,
    pub total_deployments: u32,
    pub verified: bool,
}

impl View for ContractMetadata {
    type V = ContractMetadataView;

    open spec fn view(&self) -> ContractMetadataView {
        ContractMetadataView {
            id: self.id,
            wasm_hash: self.wasm_hash@,
            name: self.name@,
            description: self.description@,
            version: self.version@,
            author: self.author@,
            category: self.category,
            tags: texts(self.tags@),
            source_url: self.source_url@,
            documentation_url: self.documentation_url@,
            license: self.license@,
            published_at: self.published_at,
            updated_at: self.updated_at,
            total_deployments: self.total_deployments,
            verified: self.verified,
        }
    }
}

impl Clone for ContractMetadata {
    fn clone(&self) -> (r: Self)
        ensures
            r@ == self@,
    {
        ContractMetadata {
            id: self.id,
            wasm_hash: self.wasm_hash,
            name: self.name.clone(),
            description: self.description.clone(),
            version: self.version.clone(),
            author: self.author.clone(),
            category: self.category,
            tags: clone_texts(&self.tags),
            source_url: self.source_url.clone(),
            documentation_url: self.documentation_url.clone(),
            license: self.license.clone(),
            published_at: self.published_at,
            updated_at: self.updated_at,
            total_deployments: self.total_deployments,
            verified: self.verified,
        }
    }
}

} // verus!
