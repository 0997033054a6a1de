//! Storage classes per provider and tier, and the tier changes of object stores.

use vstd::prelude::*;
use crate::domain::{StorageSourceType, StorageTier};
use crate::s3::tier_of_class;

verus! {

/// The standard class of a provider.
pub open spec fn standard_class(st: StorageSourceType) -> Seq<char> {
    match st {
        StorageSourceType::AzureBlob => "Hot"@,
        _ => "STANDARD"@,
    }
}

/// The class that the nearline tier maps to.
pub open spec fn nearline_class(st: StorageSourceType) -> Seq<char> {
    match st {
        StorageSourceType::AzureBlob => "Hot"@,
        _ => "STANDARD"@,
    }
}

/// The class that the cold tier maps to: Glacier Instant Retrieval on S3, Coldline on GCS,
/// Archive on Azure, and the Archive class of the S3-compatible stores (Oracle's).
pub open spec fn cold_class(st: StorageSourceType) -> Seq<char> {
    match st {
        StorageSourceType::S3Compatible => "ARCHIVE"@,
        StorageSourceType::Gcs => "COLDLINE"@,
        StorageSourceType::AzureBlob => "Archive"@,
        _ => "GLACIER_IR"@,
    }
}

/// The class that the archive (infrequent access) tier maps to.
pub open spec fn archive_class(st: StorageSourceType) -> Seq<char> {
    match st {
        StorageSourceType::Gcs => "NEARLINE"@,
        StorageSourceType::AzureBlob => "Cool"@,
        _ => "STANDARD_IA"@,
    }
}

/// The name a provider is shown under.
pub open spec fn provider_name(st: StorageSourceType) -> Seq<char> {
    match st {
        StorageSourceType::S3 => "S3"@,
        StorageSourceType::S3Compatible => "S3-Compatible"@,
        StorageSourceType::Gcs => "GCS"@,
        StorageSourceType::AzureBlob => "Azure Blob"@,
        _ => "Object Storage"@,
    }
}

/// The class an object is moved to for a tier: hot and warm are kept for file systems and
/// fall back to nearline on object stores.
pub open spec fn class_for_tier(st: StorageSourceType, tier: StorageTier) -> Seq<char> {
    match tier {
        StorageTier::Hot | StorageTier::Warm | StorageTier::Nearline => nearline_class(st),
        StorageTier::Archive => archive_class(st),
        StorageTier::Cold | StorageTier::InstantRetrieval => cold_class(st),
    }
}

/// The standard class of a provider.
pub fn get_standard_storage_class(source_type: &StorageSourceType) -> (r: &'static str)
    ensures
        r@ == standard_class(*source_type),
{
    match source_type {
        StorageSourceType::S3 | StorageSourceType::S3Compatible => "STANDARD",
        StorageSourceType::Gcs => "STANDARD",
        StorageSourceType::AzureBlob => "Hot",
        _ => "STANDARD",
    }
}

/// The class that the nearline tier maps to.
pub fn get_nearline_storage_class(source_type: &StorageSourceType) -> (r: &'static str)
    ensures
        r@ == nearline_class(*source_type),
{
    match source_type {
        StorageSourceType::S3 | StorageSourceType::S3Compatible => "STANDARD",
        StorageSourceType::Gcs => "STANDARD",
        StorageSourceType::AzureBlob => "Hot",
        _ => "STANDARD",
    }
}

/// The class that the cold tier maps to.
pub fn get_cold_storage_class(source_type: &StorageSourceType) -> (r: &'static str)
    ensures
        r@ == cold_class(*source_type),
{
    match source_type {
        StorageSourceType::S3 => "GLACIER_IR",
        StorageSourceType::S3Compatible => "ARCHIVE",
        StorageSourceType::Gcs => "COLDLINE",
        StorageSourceType::AzureBlob => "Archive",
        _ => "GLACIER_IR",
    }
}

/// The class that the archive tier maps to.
pub fn get_archive_storage_class(source_type: &StorageSourceType) -> (r: &'static str)
    ensures
        r@ == archive_class(*source_type),
{
    match source_type {
        StorageSourceType::S3 | StorageSourceType::S3Compatible => "STANDARD_IA",
        StorageSourceType::Gcs => "NEARLINE",
        StorageSourceType::AzureBlob => "Cool",
        _ => "STANDARD_IA",
    }
}

/// The name a provider is shown under.
pub fn get_provider_name(source_type: &StorageSourceType) -> (r: &'static str)
    ensures
        r@ == provider_name(*source_type),
{
    match source_type {
        StorageSourceType::S3 => "S3",
        StorageSourceType::S3Compatible => "S3-Compatible",
        StorageSourceType::Gcs => "GCS",
        StorageSourceType::AzureBlob => "Azure Blob",
        _ => "Object Storage",
    }
}

/// The class an object is moved to when its tier changes (see `class_for_tier`).
pub fn storage_class_for_tier(source_type: &StorageSourceType, tier: StorageTier) -> (r: &'static str)
    ensures
        r@ == class_for_tier(*source_type, tier),
{
    match tier {
        StorageTier::Hot | StorageTier::Warm | StorageTier::Nearline => get_nearline_storage_class(
            source_type,
        ),
        StorageTier::Archive => get_archive_storage_class(source_type),
        StorageTier::Cold | StorageTier::InstantRetrieval => get_cold_storage_class(source_type),
    }
}

/// The key an object is staged under while its class changes: the key and `.tiering`.
pub fn tiering_temp_key(key: &str) -> (r: String)
    ensures
        r@ == key@ + ".tiering"@,
{
    String::from_str(key).concat(".tiering")
}

/// Moving an S3 object to a tier and reading its class back gives the tier it lands in: cold
/// for the cold and instant-retrieval tiers, nearline for all others (the archive tier's
/// infrequent-access class reads back as nearline).
pub proof fn lemma_s3_class_round_trip(tier: StorageTier)
    ensures
        tier_of_class(Some(class_for_tier(StorageSourceType::S3, tier))) == match tier {
            StorageTier::Cold | StorageTier::InstantRetrieval => StorageTier::Cold,
            _ => StorageTier::Nearline,
        },
{
    reveal_strlit("STANDARD");
    reveal_strlit("STANDARD_IA");
    reveal_strlit("GLACIER_IR");
    reveal_strlit("GLACIER");
    reveal_strlit("DEEP_ARCHIVE");
    assert("STANDARD"@.len() == 8 && "STANDARD_IA"@.len() == 11 && "GLACIER_IR"@.len() == 10
        && "GLACIER"@.len() == 7 && "DEEP_ARCHIVE"@.len() == 12);
    assert("STANDARD"@ != "GLACIER_IR"@ && "STANDARD"@ != "GLACIER"@ && "STANDARD"@ != "DEEP_ARCHIVE"@);
    assert("STANDARD_IA"@ != "GLACIER_IR"@ && "STANDARD_IA"@ != "GLACIER"@ && "STANDARD_IA"@ != "DEEP_ARCHIVE"@);
}

/// On every provider, the hot, warm and nearline tiers keep an object in the provider's
/// standard class (the one it starts in).
pub proof fn lemma_fast_tiers_use_standard_class(st: StorageSourceType, tier: StorageTier)
    requires
        tier is Hot || tier is Warm || tier is Nearline,
    ensures
        class_for_tier(st, tier) == standard_class(st),
{
}

/// On every provider, the nearline, archive and cold tiers map to three different classes,
/// so moving an object between them changes its class.
pub proof fn lemma_tier_classes_distinct(st: StorageSourceType)
    ensures
        class_for_tier(st, StorageTier::Nearline) != class_for_tier(st, StorageTier::Archive),
        class_for_tier(st, StorageTier::Nearline) != class_for_tier(st, StorageTier::Cold),
        class_for_tier(st, StorageTier::Archive) != class_for_tier(st, StorageTier::Cold),
{
    reveal_strlit("Hot");
    reveal_strlit("Cool");
    reveal_strlit("Archive");
    reveal_strlit("STANDARD");
    reveal_strlit("STANDARD_IA");
    reveal_strlit("GLACIER_IR");
    reveal_strlit("ARCHIVE");
    reveal_strlit("NEARLINE");
    reveal_strlit("COLDLINE");
    assert("Hot"@.len() == 3 && "Cool"@.len() == 4 && "Archive"@.len() == 7);
    assert("STANDARD"@.len() == 8 && "STANDARD_IA"@.len() == 11 && "GLACIER_IR"@.len() == 10);
    assert("ARCHIVE"@.len() == 7 && "NEARLINE"@.len() == 8 && "COLDLINE"@.len() == 8);
    assert("STANDARD"@[0] != "NEARLINE"@[0] && "STANDARD"@[0] != "COLDLINE"@[0] && "NEARLINE"@[0] != "COLDLINE"@[0]);
}

/// On Azure Blob the tiers map, from hottest to coldest, onto Azure's access tiers: the hot,
/// warm and nearline tiers onto `Hot`, the archive (infrequent access) tier onto `Cool`, the
/// cold and instant-retrieval tiers onto `Archive`.
pub proof fn lemma_azure_access_tiers(tier: StorageTier)
    ensures
        class_for_tier(StorageSourceType::AzureBlob, tier) == match tier {
            StorageTier::Hot | StorageTier::Warm | StorageTier::Nearline => "Hot"@,
            StorageTier::Archive => "Cool"@,
            StorageTier::Cold | StorageTier::InstantRetrieval => "Archive"@,
        },
        standard_class(StorageSourceType::AzureBlob) == "Hot"@,
{
}

/// The classes each provider's tiers map to, from hottest to coldest (nearline, archive,
/// cold): S3 `STANDARD`, `STANDARD_IA`, `GLACIER_IR`; the S3-compatible stores (Oracle)
/// `STANDARD`, `STANDARD_IA`, `ARCHIVE`; GCS `STANDARD`, `NEARLINE`, `COLDLINE`; Azure `Hot`,
/// `Cool`, `Archive`.
pub proof fn lemma_provider_classes(st: StorageSourceType)
    ensures
        st == StorageSourceType::S3 ==> class_for_tier(st, StorageTier::Nearline) == "STANDARD"@
            && class_for_tier(st, StorageTier::Archive) == "STANDARD_IA"@ && class_for_tier(st, StorageTier::Cold)
            == "GLACIER_IR"@,
        st == StorageSourceType::S3Compatible ==> class_for_tier(st, StorageTier::Nearline) == "STANDARD"@
            && class_for_tier(st, StorageTier::Archive) == "STANDARD_IA"@ && class_for_tier(st, StorageTier::Cold)
            == "ARCHIVE"@,
        st == StorageSourceType::Gcs ==> class_for_tier(st, StorageTier::Nearline) == "STANDARD"@
            && class_for_tier(st, StorageTier::Archive) == "NEARLINE"@ && class_for_tier(st, StorageTier::Cold)
            == "COLDLINE"@,
        st == StorageSourceType::AzureBlob ==> class_for_tier(st, StorageTier::Nearline) == "Hot"@
            && class_for_tier(st, StorageTier::Archive) == "Cool"@ && class_for_tier(st, StorageTier::Cold) == "Archive"@,
        class_for_tier(st, StorageTier::InstantRetrieval) == class_for_tier(st, StorageTier::Cold),
{
}

} // verus!
