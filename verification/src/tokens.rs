//! The registry of trusted token contracts and their canonical symbols.
//!
//! Only a contract that the registry lists gets a symbol; what a transfer
//! says of its own name and symbol is never used.

use crate::primitives::Address;
use vstd::prelude::*;

verus! {
/// The bytes of the contract `0xff970a61a04b1ca14834a43f5de4533ebddb5cc8`.
pub const USDC_BRIDGED: [u8; 20] = [
    0xff, 0x97, 0x0a, 0x61, 0xa0, 0x4b, 0x1c, 0xa1, 0x48, 0x34,
    0xa4, 0x3f, 0x5d, 0xe4, 0x53, 0x3e, 0xbd, 0xdb, 0x5c, 0xc8,
];
/// The bytes of the contract `0xfd086bc7cd5c481dcc9c85ebe478a1c0b69fcbb9`.
pub const USDT: [u8; 20] = [
    0xfd, 0x08, 0x6b, 0xc7, 0xcd, 0x5c, 0x48, 0x1d, 0xcc, 0x9c,
    0x85, 0xeb, 0xe4, 0x78, 0xa1, 0xc0, 0xb6, 0x9f, 0xcb, 0xb9,
];
/// The bytes of the contract `0xda10009cbd5d07dd0cecc66161fc93d7c9000da1`.
pub const DAI: [u8; 20] = [
    0xda, 0x10, 0x00, 0x9c, 0xbd, 0x5d, 0x07, 0xdd, 0x0c, 0xec,
    0xc6, 0x61, 0x61, 0xfc, 0x93, 0xd7, 0xc9, 0x00, 0x0d, 0xa1,
];
/// The bytes of the contract `0x2f2a2543b76a4166549f7aab2e75bef0aefc5b63`.
pub const WBTC_ALT: [u8; 20] = [
    0x2f, 0x2a, 0x25, 0x43, 0xb7, 0x6a, 0x41, 0x66, 0x54, 0x9f,
    0x7a, 0xab, 0x2e, 0x75, 0xbe, 0xf0, 0xae, 0xfc, 0x5b, 0x63,
];
/// The bytes of the contract `0x82af49447d8a07e3bd95bd0d56f35241523fbab1`.
pub const WETH: [u8; 20] = [
    0x82, 0xaf, 0x49, 0x44, 0x7d, 0x8a, 0x07, 0xe3, 0xbd, 0x95,
    0xbd, 0x0d, 0x56, 0xf3, 0x52, 0x41, 0x52, 0x3f, 0xba, 0xb1,
];
/// The bytes of the contract `0xaf88d065e77c8cc2239327c5edb3a432268e5831`.
pub const USDC: [u8; 20] = [
    0xaf, 0x88, 0xd0, 0x65, 0xe7, 0x7c, 0x8c, 0xc2, 0x23, 0x93,
    0x27, 0xc5, 0xed, 0xb3, 0xa4, 0x32, 0x26, 0x8e, 0x58, 0x31,
];
/// The bytes of the contract `0x724dc807b04555b71ed48a6896b6f41593b8c637`.
pub const AAVE_USDC: [u8; 20] = [
    0x72, 0x4d, 0xc8, 0x07, 0xb0, 0x45, 0x55, 0xb7, 0x1e, 0xd4,
    0x8a, 0x68, 0x96, 0xb6, 0xf4, 0x15, 0x93, 0xb8, 0xc6, 0x37,
];
/// The bytes of the contract `0x078f358208685046a11c85e8ad32895ded33a249`.
pub const AAVE_WBTC: [u8; 20] = [
    0x07, 0x8f, 0x35, 0x82, 0x08, 0x68, 0x50, 0x46, 0xa1, 0x1c,
    0x85, 0xe8, 0xad, 0x32, 0x89, 0x5d, 0xed, 0x33, 0xa2, 0x49,
];
/// The bytes of the contract `0x2f2a2543b76a4166549f7aab2e75bef0aefc5b0f`.
pub const WBTC: [u8; 20] = [
    0x2f, 0x2a, 0x25, 0x43, 0xb7, 0x6a, 0x41, 0x66, 0x54, 0x9f,
    0x7a, 0xab, 0x2e, 0x75, 0xbe, 0xf0, 0xae, 0xfc, 0x5b, 0x0f,
];
/// The bytes of the contract `0xf611aeb5013fd2c0511c9cd55c7dc5c1140741a6`.
pub const DEBT_USDC: [u8; 20] = [
    0xf6, 0x11, 0xae, 0xb5, 0x01, 0x3f, 0xd2, 0xc0, 0x51, 0x1c,
    0x9c, 0xd5, 0x5c, 0x7d, 0xc5, 0xc1, 0x14, 0x07, 0x41, 0xa6,
];
/// The bytes of the contract `0x92b42c66840c7ad907b4bf74879ff3ef7c529473`.
pub const DEBT_WBTC: [u8; 20] = [
    0x92, 0xb4, 0x2c, 0x66, 0x84, 0x0c, 0x7a, 0xd9, 0x07, 0xb4,
    0xbf, 0x74, 0x87, 0x9f, 0xf3, 0xef, 0x7c, 0x52, 0x94, 0x73,
];
/// The bytes of the contract `0x912ce59144191c1204e64559fe8253a0e49e6548`.
pub const ARB: [u8; 20] = [
    0x91, 0x2c, 0xe5, 0x91, 0x44, 0x19, 0x1c, 0x12, 0x04, 0xe6,
    0x45, 0x59, 0xfe, 0x82, 0x53, 0xa0, 0xe4, 0x9e, 0x65, 0x48,
];
/// The bytes of the contract `0xe50fa9b3c56ffb159cb0fca61f5c9d750e8128c8`.
pub const AAVE_WETH: [u8; 20] = [
    0xe5, 0x0f, 0xa9, 0xb3, 0xc5, 0x6f, 0xfb, 0x15, 0x9c, 0xb0,
    0xfc, 0xa6, 0x1f, 0x5c, 0x9d, 0x75, 0x0e, 0x81, 0x28, 0xc8,
];
/// The bytes of the contract `0x6533afac2e7bccb20dca161449a13a32d391fb00`.
pub const AAVE_ARB: [u8; 20] = [
    0x65, 0x33, 0xaf, 0xac, 0x2e, 0x7b, 0xcc, 0xb2, 0x0d, 0xca,
    0x16, 0x14, 0x49, 0xa1, 0x3a, 0x32, 0xd3, 0x91, 0xfb, 0x00,
];
/// The bytes of the contract `0x0c84331e39d6658cd6e6b9ba04736cc4c4734351`.
pub const DEBT_WETH: [u8; 20] = [
    0x0c, 0x84, 0x33, 0x1e, 0x39, 0xd6, 0x65, 0x8c, 0xd6, 0xe6,
    0xb9, 0xba, 0x04, 0x73, 0x6c, 0xc4, 0xc4, 0x73, 0x43, 0x51,
];
/// The bytes of the contract `0x953a573793604af8d41f306feb8274190db4ae0e`.
pub const DEBT_LINK: [u8; 20] = [
    0x95, 0x3a, 0x57, 0x37, 0x93, 0x60, 0x4a, 0xf8, 0xd4, 0x1f,
    0x30, 0x6f, 0xeb, 0x82, 0x74, 0x19, 0x0d, 0xb4, 0xae, 0x0e,
];
/// The bytes of the contract `0x18248226c16bf76c032817854e7c83a2113b4f06`.
pub const DEBT_GHO: [u8; 20] = [
    0x18, 0x24, 0x82, 0x26, 0xc1, 0x6b, 0xf7, 0x6c, 0x03, 0x28,
    0x17, 0x85, 0x4e, 0x7c, 0x83, 0xa2, 0x11, 0x3b, 0x4f, 0x06,
];
/// The bytes of the contract `0x191c10aa4af7c30e871e70c95db0e4eb77237530`.
pub const AAVE_LINK: [u8; 20] = [
    0x19, 0x1c, 0x10, 0xaa, 0x4a, 0xf7, 0xc3, 0x0e, 0x87, 0x1e,
    0x70, 0xc9, 0x5d, 0xb0, 0xe4, 0xeb, 0x77, 0x23, 0x75, 0x30,
];
/// The bytes of the contract `0x44705f578135cc5d703b4c9c122528c73eb87145`.
pub const DEBT_ARB: [u8; 20] = [
    0x44, 0x70, 0x5f, 0x57, 0x81, 0x35, 0xcc, 0x5d, 0x70, 0x3b,
    0x4c, 0x9c, 0x12, 0x25, 0x28, 0xc7, 0x3e, 0xb8, 0x71, 0x45,
];
/// A list of token contracts with the symbol of each; of two entries for one
/// contract the later one counts.
#[derive(Debug)]
pub struct SymbolRegistry {
    entries: Vec<(Address, &'static str)>,
}

/// The symbol that a list of entries gives a contract, if any.
pub open spec fn symbol_in(entries: Seq<(Address, &'static str)>, contract: Address) -> Option<
    Seq<char>,
>
    decreases entries.len(),
{
    if entries.len() == 0 {
        None
    } else if entries.last().0 == contract {
        Some(entries.last().1@)
    } else {
        symbol_in(entries.drop_last(), contract)
    }
}

/// The contracts that are trusted, each with its canonical symbol.
pub open spec fn known_tokens() -> Seq<(Address, &'static str)> {
    seq![
        (Address { bytes: USDC_BRIDGED }, "USDC"),
        (Address { bytes: USDT }, "USDT"),
        (Address { bytes: DAI }, "DAI"),
        (Address { bytes: WBTC_ALT }, "WBTC"),
        (Address { bytes: WETH }, "WETH"),
        (Address { bytes: USDC }, "USDC"),
        (Address { bytes: AAVE_USDC }, "USDC"),
        (Address { bytes: AAVE_WBTC }, "WBTC"),
        (Address { bytes: WBTC }, "WBTC"),
        (Address { bytes: DEBT_USDC }, "Debt USDC"),
        (Address { bytes: DEBT_WBTC }, "Debt WBTC"),
        (Address { bytes: ARB }, "ARB"),
        (Address { bytes: AAVE_WETH }, "WETH"),
        (Address { bytes: AAVE_ARB }, "ARB"),
        (Address { bytes: DEBT_WETH }, "Debt WETH"),
        (Address { bytes: DEBT_LINK }, "Debt LINK"),
        (Address { bytes: DEBT_GHO }, "Debt GHO"),
        (Address { bytes: AAVE_LINK }, "LINK"),
        (Address { bytes: DEBT_ARB }, "Debt ARB"),
    ]
}

impl SymbolRegistry {
    /// The entries of the registry, in the order in which they were added.
    pub closed spec fn view(&self) -> Seq<(Address, &'static str)> {
        self.entries@
    }

    /// A registry that lists no contract.
    pub fn new() -> (registry: SymbolRegistry)
        ensures
            registry@ == Seq::<(Address, &'static str)>::empty(),
    {
        SymbolRegistry { entries: Vec::new() }
    }

    /// Lists `contract` under `symbol`, in place of the symbol it had, if any.
    pub fn insert(&mut self, contract: Address, symbol: &'static str)
        ensures
            final(self)@ == old(self)@.push((contract, symbol)),
            (forall|other: Address|
                #[trigger] symbol_in(final(self)@, other) == if other == contract {
                    Some(symbol@)
                } else {
                    symbol_in(old(self)@, other)
                }),
    {
        let ghost before = self.entries@;
        self.entries.push((contract, symbol));
        assert(self.entries@.drop_last() =~= before);
    }

    /// The registry of the trusted contracts.
    pub fn known() -> (registry: SymbolRegistry)
        ensures
            registry@ == known_tokens(),
    {
        let mut entries: Vec<(Address, &'static str)> = Vec::new();
        entries.push((Address { bytes: USDC_BRIDGED }, "USDC"));
        entries.push((Address { bytes: USDT }, "USDT"));
        entries.push((Address { bytes: DAI }, "DAI"));
        entries.push((Address { bytes: WBTC_ALT }, "WBTC"));
        entries.push((Address { bytes: WETH }, "WETH"));
        entries.push((Address { bytes: USDC }, "USDC"));
        entries.push((Address { bytes: AAVE_USDC }, "USDC"));
        entries.push((Address { bytes: AAVE_WBTC }, "WBTC"));
        entries.push((Address { bytes: WBTC }, "WBTC"));
        entries.push((Address { bytes: DEBT_USDC }, "Debt USDC"));
        entries.push((Address { bytes: DEBT_WBTC }, "Debt WBTC"));
        entries.push((Address { bytes: ARB }, "ARB"));
        entries.push((Address { bytes: AAVE_WETH }, "WETH"));
        entries.push((Address { bytes: AAVE_ARB }, "ARB"));
        entries.push((Address { bytes: DEBT_WETH }, "Debt WETH"));
        entries.push((Address { bytes: DEBT_LINK }, "Debt LINK"));
        entries.push((Address { bytes: DEBT_GHO }, "Debt GHO"));
        entries.push((Address { bytes: AAVE_LINK }, "LINK"));
        entries.push((Address { bytes: DEBT_ARB }, "Debt ARB"));
        assert(entries@ =~= known_tokens());
        SymbolRegistry { entries }
    }

    /// The symbol under which the registry lists `contract`, if it does.
    pub fn symbol(&self, contract: &Address) -> (found: Option<&'static str>)
        ensures
            (match found {
                Some(symbol) => symbol_in(self@, *contract) == Some(symbol@),
                None => symbol_in(self@, *contract) is None,
            }),
    {
        let mut k: usize = self.entries.len();
        assert(self.entries@.take(k as int) =~= self.entries@);
        while k > 0
            invariant
                k <= self.entries@.len(),
                symbol_in(self.entries@, *contract) == symbol_in(
                    self.entries@.take(k as int),
                    *contract,
                ),
            decreases k,
        {
            proof {
                assert(self.entries@.take(k as int).drop_last() =~= self.entries@.take(
                    k as int - 1,
                ));
            }
            k = k - 1;
            if self.entries[k].0 == *contract {
                return Some(self.entries[k].1);
            }
        }
        None
    }
}

/// Return the canonical symbol for a token if it exists in the whitelist.
pub fn get_symbol(addr: &Address) -> (found: Option<&'static str>)
    ensures
        (match found {
            Some(symbol) => symbol_in(known_tokens(), *addr) == Some(symbol@),
            None => symbol_in(known_tokens(), *addr) is None,
        }),
{
    let registry = SymbolRegistry::known();
    registry.symbol(addr)
}

} // verus!
