//! The environments a service instance can run in, and the well-known
//! addresses of its peers in each.

use vstd::prelude::*;

verus! {

#[derive(Clone, Copy, PartialEq, Eq, Structural, Debug)]
pub enum CanisterType {
    Dao,
    User,
    Platform,
    Indexer,
    Ledger,
    CkBTCLedger,
}

#[derive(Clone, Copy, PartialEq, Eq, Structural, Debug)]
pub enum Environment {
    Test,
    Production,
}

impl Environment {
    /// The well-known textual address of a peer service in this environment:
    /// a pure, total map from the environment and service kind to a fixed
    /// constant.
    pub fn get_canister_pid(&self, canister_type: CanisterType) -> (r: &'static str)
        ensures
            *self is Test && canister_type is Dao ==> r@ == "vght4-jyaaa-aaaag-aceyq-cai"@,
            *self is Test && canister_type is User ==> r@ == "rzw6u-kqaaa-aaaag-al5ga-cai"@,
            *self is Test && canister_type is Platform ==> r@ == "myniu-wqaaa-aaaah-advna-cai"@,
            *self is Test && canister_type is Indexer ==> r@ == "ikdny-nyaaa-aaaag-ab2za-cai"@,
            *self is Test && canister_type is Ledger ==> r@ == "s57im-oyaaa-aaaas-akwma-cai"@,
            *self is Test && canister_type is CkBTCLedger ==> r@
                == "s57im-oyaaa-aaaas-akwma-cai"@,
            *self is Production && canister_type is Dao ==> r@ == "tlcef-5iaaa-aaaas-akjmq-cai"@,
            *self is Production && canister_type is User ==> r@
                == "tcbpz-laaaa-aaaas-akjna-cai"@,
            *self is Production && canister_type is Platform ==> r@
                == "tfajn-gyaaa-aaaas-akjnq-cai"@,
            *self is Production && canister_type is Indexer ==> r@
                == "tqhya-hqaaa-aaaas-akjoa-cai"@,
            *self is Production && canister_type is Ledger ==> r@
                == "ryjl3-tyaaa-aaaaa-aaaba-cai"@,
            *self is Production && canister_type is CkBTCLedger ==> r@
                == "mxzaz-hqaaa-aaaar-qaada-cai"@,
    {
        match self {
            Environment::Test => match canister_type {
                CanisterType::Dao => "vght4-jyaaa-aaaag-aceyq-cai",
                CanisterType::User => "rzw6u-kqaaa-aaaag-al5ga-cai",
                CanisterType::Platform => "myniu-wqaaa-aaaah-advna-cai",
                CanisterType::Indexer => "ikdny-nyaaa-aaaag-ab2za-cai",
                CanisterType::Ledger => "s57im-oyaaa-aaaas-akwma-cai",
                CanisterType::CkBTCLedger => "s57im-oyaaa-aaaas-akwma-cai",
            },
            Environment::Production => match canister_type {
                CanisterType::Dao => "tlcef-5iaaa-aaaas-akjmq-cai",
                CanisterType::User => "tcbpz-laaaa-aaaas-akjna-cai",
                CanisterType::Platform => "tfajn-gyaaa-aaaas-akjnq-cai",
                CanisterType::Indexer => "tqhya-hqaaa-aaaas-akjoa-cai",
                CanisterType::Ledger => "ryjl3-tyaaa-aaaaa-aaaba-cai",
                CanisterType::CkBTCLedger => "mxzaz-hqaaa-aaaar-qaada-cai",
            },
        }
    }
}

} // verus!
