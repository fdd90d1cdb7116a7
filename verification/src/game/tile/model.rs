use vstd::prelude::*;

verus! {

/// An amount of money held by a player or the free parking jackpot. Money paid into a holding
/// wraps at the type's bound, as the simulator's release build does; no game under the printed
/// rules comes near it.
pub type Cash = u32;

/// The holding `cash` after `amount` is paid into it.
pub open spec fn credited(cash: Cash, amount: Cash) -> Cash {
    ((cash + amount) % 0x1_0000_0000) as Cash
}

/// Pays `amount` into the holding `cash`.
pub fn credit(cash: Cash, amount: Cash) -> (result: Cash)
    ensures
        result == credited(cash, amount),
        cash + amount <= Cash::MAX ==> result == cash + amount,
{
    cash.wrapping_add(amount)
}

/// A printed amount of money on the board or a card.
pub type Money = u16;

/// The position of a tile on the board, counted from Go.
pub type TileId = u8;

/// The index of a street property in board order.
pub type PropertyId = u8;

/// One bit per tile: bit `i` stands for tile `i`.
pub type TileSetMask = u64;

/// An index into a tile's row of the rent table.
pub type RentLevel = usize;

/// Whether `tile` is a member of the tile set `mask`.
pub open spec fn tile_in(mask: u64, tile: int) -> bool {
    0 <= tile < 64 && (mask >> (tile as u64)) & 1u64 == 1u64
}

pub broadcast proof fn lemma_tile_in_or(a: u64, b: u64, tile: int)
    ensures
        #[trigger] tile_in(a | b, tile) == (tile_in(a, tile) || tile_in(b, tile)),
{
    if 0 <= tile < 64 {
        let t = tile as u64;
        assert(((a | b) >> t) & 1u64 == 1u64 <==> ((a >> t) & 1u64 == 1u64 || (b >> t) & 1u64
            == 1u64)) by (bit_vector);
    }
}

pub broadcast proof fn lemma_tile_in_and(a: u64, b: u64, tile: int)
    ensures
        #[trigger] tile_in(a & b, tile) == (tile_in(a, tile) && tile_in(b, tile)),
{
    if 0 <= tile < 64 {
        let t = tile as u64;
        assert(((a & b) >> t) & 1u64 == 1u64 <==> ((a >> t) & 1u64 == 1u64 && (b >> t) & 1u64
            == 1u64)) by (bit_vector);
    }
}

pub broadcast proof fn lemma_tile_in_not(a: u64, tile: int)
    ensures
        #[trigger] tile_in(!a, tile) == (0 <= tile < 64 && !tile_in(a, tile)),
{
    if 0 <= tile < 64 {
        let t = tile as u64;
        assert(((!a) >> t) & 1u64 == 1u64 <==> !((a >> t) & 1u64 == 1u64)) by (bit_vector)
            requires
                t < 64,
        ;
    }
}

pub broadcast proof fn lemma_tile_in_bit(bit: u64, tile: int)
    requires
        bit < 64,
    ensures
        #[trigger] tile_in(1u64 << bit, tile) == (tile == bit),
{
    if 0 <= tile < 64 {
        let t = tile as u64;
        assert(bit < 64 ==> (((1u64 << bit) >> t) & 1u64 == 1u64 <==> t == bit)) by (bit_vector);
    }
}

pub broadcast proof fn lemma_tile_in_zero(tile: int)
    ensures
        !#[trigger] tile_in(0u64, tile),
{
    if 0 <= tile < 64 {
        let t = tile as u64;
        assert((0u64 >> t) & 1u64 != 1u64) by (bit_vector);
    }
}

/// Two masks that hold the same tiles are equal.
pub proof fn lemma_tiles_ext(a: u64, b: u64)
    requires
        forall|tile: int| 0 <= tile < 64 ==> tile_in(a, tile) == tile_in(b, tile),
    ensures
        a == b,
{
    if a != b {
        let d = a ^ b;
        assert(a != b ==> d != 0) by (bit_vector)
            requires
                d == a ^ b,
        ;
        let t = d.trailing_zeros();
        vstd::std_specs::bits::axiom_u64_trailing_zeros(d);
        let tt = t as u64;
        assert(tt < 64 && (d >> tt) & 1u64 == 1u64 ==> ((a >> tt) & 1u64 == 1u64) != ((b >> tt)
            & 1u64 == 1u64)) by (bit_vector)
            requires
                d == a ^ b,
        ;
        assert(tile_in(a, t as int) == tile_in(b, t as int));
    }
}

/// A mask that holds no tile is zero.
pub proof fn lemma_tiles_empty(a: u64)
    ensures
        (a == 0) == (forall|tile: int| 0 <= tile < 64 ==> !tile_in(a, tile)),
{
    broadcast use lemma_tile_in_zero;

    if forall|tile: int| 0 <= tile < 64 ==> !tile_in(a, tile) {
        lemma_tiles_ext(a, 0u64);
    }
}

pub broadcast group group_tile_mask {
    lemma_tile_in_or,
    lemma_tile_in_and,
    lemma_tile_in_not,
    lemma_tile_in_bit,
    lemma_tile_in_zero,
}

/// Returns the set with the single tile `tile`.
pub fn tile_bit(tile: TileId) -> (mask: TileSetMask)
    requires
        tile < 64,
    ensures
        forall|t: int| #[trigger] tile_in(mask, t) == (t == tile),
{
    broadcast use group_tile_mask;

    1u64 << tile
}

/// Whether the set `mask` holds `tile`.
pub fn contains_tile(mask: TileSetMask, tile: TileId) -> (result: bool)
    ensures
        result == tile_in(mask, tile as int),
{
    if tile >= 64 {
        return false;
    }
    (mask >> tile) & 1 == 1
}

/// Whether every tile of `part` is a tile of `whole`.
pub fn holds_all_tiles(whole: TileSetMask, part: TileSetMask) -> (result: bool)
    ensures
        result == (forall|t: int| tile_in(part, t) ==> tile_in(whole, t)),
{
    broadcast use group_tile_mask;

    let result = whole & part == part;
    proof {
        if forall|t: int| tile_in(part, t) ==> tile_in(whole, t) {
            lemma_tiles_ext(whole & part, part);
        }
    }
    result
}

/// Whether the sets `a` and `b` share no tile.
pub fn tiles_disjoint(a: TileSetMask, b: TileSetMask) -> (result: bool)
    ensures
        result == (forall|t: int| !(tile_in(a, t) && tile_in(b, t))),
{
    broadcast use group_tile_mask;

    proof {
        lemma_tiles_empty(a & b);
        assert((forall|t: int| 0 <= t < 64 ==> !tile_in(a & b, t)) == (forall|t: int|
            !(tile_in(a, t) && tile_in(b, t)))) by {
            assert forall|t: int| tile_in(a & b, t) == (tile_in(a, t) && tile_in(b, t)) by {}
        }
    }
    a & b == 0
}

/// The number of tiles in the set `mask` below `bound`.
pub open spec fn tile_count_below(mask: u64, bound: nat) -> nat
    decreases bound,
{
    if bound == 0 {
        0
    } else {
        tile_count_below(mask, (bound - 1) as nat) + if tile_in(mask, bound - 1) {
            1nat
        } else {
            0nat
        }
    }
}

/// The number of tiles in the set `mask`.
pub open spec fn tile_count(mask: u64) -> nat {
    tile_count_below(mask, 64)
}

pub proof fn lemma_tile_count_below_bound(mask: u64, bound: nat)
    ensures
        tile_count_below(mask, bound) <= bound,
    decreases bound,
{
    if bound > 0 {
        lemma_tile_count_below_bound(mask, (bound - 1) as nat);
    }
}

/// Counts the tiles of the set `mask`.
pub fn count_tiles(mask: TileSetMask) -> (count: u32)
    ensures
        count == tile_count(mask),
{
    let mut count: u32 = 0;
    let mut tile: u8 = 0;
    while tile < 64
        invariant
            tile <= 64,
            count == tile_count_below(mask, tile as nat),
        decreases 64 - tile,
    {
        proof {
            lemma_tile_count_below_bound(mask, tile as nat);
        }
        if contains_tile(mask, tile) {
            count = count + 1;
        }
        tile = tile + 1;
    }
    count
}

#[derive(Debug, Clone, Copy, PartialEq, Eq, Hash)]
pub struct TileDefinition {
    pub name: &'static str,
    pub kind: TileDefinitionKind,
}

#[derive(Debug, Clone, Copy, PartialEq, Eq, Hash, Structural)]
pub enum TileDefinitionKind {
    Property { color: PropertyColor, purchase_price: u16, rent: PropertyRent },
    Railroad,
    Utility,
    Tax { amount: u16 },
    Chance,
    CommunityChest,
    Go,
    Jail,
    FreeParking,
    GoToJail,
}

impl TileDefinitionKind {
    /// The kind of tile, without the data that the kind carries.
    pub open spec fn kind_spec(self) -> TileKind {
        match self {
            TileDefinitionKind::Property { .. } => TileKind::Property,
            TileDefinitionKind::Railroad => TileKind::Railroad,
            TileDefinitionKind::Utility => TileKind::Utility,
            TileDefinitionKind::Tax { .. } => TileKind::Tax,
            TileDefinitionKind::Chance => TileKind::Chance,
            TileDefinitionKind::CommunityChest => TileKind::CommunityChest,
            TileDefinitionKind::Go => TileKind::Go,
            TileDefinitionKind::Jail => TileKind::Jail,
            TileDefinitionKind::FreeParking => TileKind::FreeParking,
            TileDefinitionKind::GoToJail => TileKind::GoToJail,
        }
    }

    pub fn to_tile_kind(&self) -> (kind: TileKind)
        ensures
            kind == self.kind_spec(),
    {
        match self {
            TileDefinitionKind::Property { .. } => TileKind::Property,
            TileDefinitionKind::Railroad => TileKind::Railroad,
            TileDefinitionKind::Utility => TileKind::Utility,
            TileDefinitionKind::Tax { .. } => TileKind::Tax,
            TileDefinitionKind::Chance => TileKind::Chance,
            TileDefinitionKind::CommunityChest => TileKind::CommunityChest,
            TileDefinitionKind::Go => TileKind::Go,
            TileDefinitionKind::Jail => TileKind::Jail,
            TileDefinitionKind::FreeParking => TileKind::FreeParking,
            TileDefinitionKind::GoToJail => TileKind::GoToJail,
        }
    }

    /// The group whose tiles a player must hold together for a monopoly.
    pub open spec fn ownership_group_spec(self) -> Option<OwnershipGroup> {
        match self {
            TileDefinitionKind::Property { color, .. } => Some(color.ownership_group_spec()),
            TileDefinitionKind::Railroad => Some(OwnershipGroup::Railroad),
            TileDefinitionKind::Utility => Some(OwnershipGroup::Utility),
            _ => None,
        }
    }

    /// The price at which the bank sells the tile; zero for tiles that nobody owns.
    pub open spec fn purchase_price_spec(self) -> int {
        match self {
            TileDefinitionKind::Property { purchase_price, .. } => purchase_price as int,
            TileDefinitionKind::Railroad => 200,
            TileDefinitionKind::Utility => 150,
            _ => 0,
        }
    }

    /// Half the purchase price, rounded down.
    pub open spec fn mortgage_value_spec(self) -> int {
        self.purchase_price_spec() * 50 / 100
    }

    /// The mortgage value plus ten percent interest, rounded up.
    pub open spec fn unmortgage_price_spec(self) -> int {
        self.mortgage_value_spec() + (self.mortgage_value_spec() * 10 + 99) / 100
    }

    /// The price of one house on a property; zero elsewhere.
    pub open spec fn house_purchase_price_spec(self) -> int {
        match self {
            TileDefinitionKind::Property { color, .. } => color.house_purchase_price_spec() as int,
            _ => 0,
        }
    }

    /// The tax charged on a tax tile; zero elsewhere.
    pub open spec fn tax_amount_spec(self) -> int {
        match self {
            TileDefinitionKind::Tax { amount } => amount as int,
            _ => 0,
        }
    }

    /// The rent row of the tile: for a property the unimproved rent, the monopoly rent (twice
    /// the unimproved rent) and the rent with one to four houses and a hotel; for a railroad the
    /// rent by the number of railroads owned; for a utility the dice multiplier by the number of
    /// utilities owned.
    pub open spec fn rent_spec(self, level: int) -> int {
        match self {
            TileDefinitionKind::Property { rent, .. } => if level == 0 {
                rent.unimproved as int
            } else if level == 1 {
                rent.unimproved * 2
            } else if level == 2 {
                rent.one_house as int
            } else if level == 3 {
                rent.two_houses as int
            } else if level == 4 {
                rent.three_houses as int
            } else if level == 5 {
                rent.four_houses as int
            } else if level == 6 {
                rent.hotel as int
            } else {
                0
            },
            TileDefinitionKind::Railroad => if level == 0 {
                25
            } else if level == 1 {
                50
            } else if level == 2 {
                100
            } else if level == 3 {
                200
            } else {
                0
            },
            TileDefinitionKind::Utility => if level == 0 {
                4
            } else if level == 1 {
                10
            } else {
                0
            },
            _ => 0,
        }
    }
}

#[derive(Debug, Clone, Copy, PartialEq, Eq, Hash, Structural)]
pub struct PropertyRent {
    pub unimproved: u16,
    pub one_house: u16,
    pub two_houses: u16,
    pub three_houses: u16,
    pub four_houses: u16,
    pub hotel: u16,
}

#[derive(Debug, Clone, Copy, PartialEq, Eq, Hash, Structural)]
pub enum TileKind {
    Property,
    Railroad,
    Utility,
    Tax,
    Chance,
    CommunityChest,
    Go,
    Jail,
    FreeParking,
    GoToJail,
}

#[derive(Debug, Clone, Copy, PartialEq, Eq, PartialOrd, Ord, Hash, Structural)]
pub enum PropertyColor {
    Brown,
    LightBlue,
    Pink,
    Orange,
    Red,
    Yellow,
    Green,
    DarkBlue,
}

impl PropertyColor {
    pub open spec fn ownership_group_spec(self) -> OwnershipGroup {
        match self {
            PropertyColor::Brown => OwnershipGroup::Brown,
            PropertyColor::LightBlue => OwnershipGroup::LightBlue,
            PropertyColor::Pink => OwnershipGroup::Pink,
            PropertyColor::Orange => OwnershipGroup::Orange,
            PropertyColor::Red => OwnershipGroup::Red,
            PropertyColor::Yellow => OwnershipGroup::Yellow,
            PropertyColor::Green => OwnershipGroup::Green,
            PropertyColor::DarkBlue => OwnershipGroup::DarkBlue,
        }
    }

    pub fn to_ownership_group(self) -> (group: OwnershipGroup)
        ensures
            group == self.ownership_group_spec(),
    {
        match self {
            PropertyColor::Brown => OwnershipGroup::Brown,
            PropertyColor::LightBlue => OwnershipGroup::LightBlue,
            PropertyColor::Pink => OwnershipGroup::Pink,
            PropertyColor::Orange => OwnershipGroup::Orange,
            PropertyColor::Red => OwnershipGroup::Red,
            PropertyColor::Yellow => OwnershipGroup::Yellow,
            PropertyColor::Green => OwnershipGroup::Green,
            PropertyColor::DarkBlue => OwnershipGroup::DarkBlue,
        }
    }

    pub open spec fn house_purchase_price_spec(self) -> u16 {
        match self {
            PropertyColor::Brown => 50,
            PropertyColor::LightBlue => 50,
            PropertyColor::Pink => 100,
            PropertyColor::Orange => 100,
            PropertyColor::Red => 150,
            PropertyColor::Yellow => 150,
            PropertyColor::Green => 200,
            PropertyColor::DarkBlue => 200,
        }
    }

    pub fn get_house_purchase_price(self) -> (price: u16)
        ensures
            price == self.house_purchase_price_spec(),
    {
        match self {
            PropertyColor::Brown => 50,
            PropertyColor::LightBlue => 50,
            PropertyColor::Pink => 100,
            PropertyColor::Orange => 100,
            PropertyColor::Red => 150,
            PropertyColor::Yellow => 150,
            PropertyColor::Green => 200,
            PropertyColor::DarkBlue => 200,
        }
    }
}

#[derive(Debug, Clone, Copy, PartialEq, Eq, PartialOrd, Ord, Hash, Structural)]
pub enum OwnershipGroup {
    Brown,
    LightBlue,
    Pink,
    Orange,
    Red,
    Yellow,
    Green,
    DarkBlue,
    Railroad,
    Utility,
}

/// The number of ownership groups.
pub const OWNERSHIP_GROUP_COUNT: usize = 10;

impl OwnershipGroup {
    /// The position of the group in declaration order.
    pub open spec fn index_spec(self) -> int {
        match self {
            OwnershipGroup::Brown => 0,
            OwnershipGroup::LightBlue => 1,
            OwnershipGroup::Pink => 2,
            OwnershipGroup::Orange => 3,
            OwnershipGroup::Red => 4,
            OwnershipGroup::Yellow => 5,
            OwnershipGroup::Green => 6,
            OwnershipGroup::DarkBlue => 7,
            OwnershipGroup::Railroad => 8,
            OwnershipGroup::Utility => 9,
        }
    }

    pub fn index(self) -> (index: usize)
        ensures
            index == self.index_spec(),
            index < OWNERSHIP_GROUP_COUNT,
    {
        match self {
            OwnershipGroup::Brown => 0,
            OwnershipGroup::LightBlue => 1,
            OwnershipGroup::Pink => 2,
            OwnershipGroup::Orange => 3,
            OwnershipGroup::Red => 4,
            OwnershipGroup::Yellow => 5,
            OwnershipGroup::Green => 6,
            OwnershipGroup::DarkBlue => 7,
            OwnershipGroup::Railroad => 8,
            OwnershipGroup::Utility => 9,
        }
    }

    /// The group at a position in declaration order.
    pub open spec fn from_index_spec(index: int) -> OwnershipGroup {
        if index == 0 {
            OwnershipGroup::Brown
        } else if index == 1 {
            OwnershipGroup::LightBlue
        } else if index == 2 {
            OwnershipGroup::Pink
        } else if index == 3 {
            OwnershipGroup::Orange
        } else if index == 4 {
            OwnershipGroup::Red
        } else if index == 5 {
            OwnershipGroup::Yellow
        } else if index == 6 {
            OwnershipGroup::Green
        } else if index == 7 {
            OwnershipGroup::DarkBlue
        } else if index == 8 {
            OwnershipGroup::Railroad
        } else {
            OwnershipGroup::Utility
        }
    }

    pub fn from_index(index: usize) -> (group: OwnershipGroup)
        requires
            index < OWNERSHIP_GROUP_COUNT,
        ensures
            group == OwnershipGroup::from_index_spec(index as int),
            group.index_spec() == index,
    {
        if index == 0 {
            OwnershipGroup::Brown
        } else if index == 1 {
            OwnershipGroup::LightBlue
        } else if index == 2 {
            OwnershipGroup::Pink
        } else if index == 3 {
            OwnershipGroup::Orange
        } else if index == 4 {
            OwnershipGroup::Red
        } else if index == 5 {
            OwnershipGroup::Yellow
        } else if index == 6 {
            OwnershipGroup::Green
        } else if index == 7 {
            OwnershipGroup::DarkBlue
        } else if index == 8 {
            OwnershipGroup::Railroad
        } else {
            OwnershipGroup::Utility
        }
    }
}

} // verus!

verus! {

/// Removing a tile that a set holds lowers the set's count by one.
pub proof fn lemma_tile_count_remove(mask: u64, tile: int, bound: nat)
    requires
        0 <= tile < 64,
        tile_in(mask, tile),
        forall|t: int| #[trigger] tile_in(mask & !(1u64 << (tile as u64)), t) == (tile_in(mask, t) && t != tile),
    ensures
        tile_count_below(mask & !(1u64 << (tile as u64)), bound) + (if tile < bound {
            1int
        } else {
            0
        }) == tile_count_below(mask, bound),
    decreases bound,
{
    if bound > 0 {
        lemma_tile_count_remove(mask, tile, (bound - 1) as nat);
    }
}

/// Removes `tile` from the set `mask`.
pub fn without_tile(mask: TileSetMask, tile: TileId) -> (result: TileSetMask)
    requires
        tile < 64,
    ensures
        forall|t: int| #[trigger] tile_in(result, t) == (tile_in(mask, t) && t != tile),
        result == mask & !(1u64 << (tile as u64)),
        tile_in(mask, tile as int) ==> tile_count(result) + 1 == tile_count(mask),
{
    broadcast use group_tile_mask;

    let result = mask & !(1u64 << tile);
    proof {
        if tile_in(mask, tile as int) {
            lemma_tile_count_remove(mask, tile as int, 64);
        }
    }
    result
}

/// Adds `tile` to the set `mask`.
pub fn with_tile(mask: TileSetMask, tile: TileId) -> (result: TileSetMask)
    requires
        tile < 64,
    ensures
        forall|t: int| #[trigger] tile_in(result, t) == (tile_in(mask, t) || t == tile),
        result == mask | (1u64 << (tile as u64)),
{
    broadcast use group_tile_mask;

    mask | (1u64 << tile)
}

/// Adding a tile to a set lowers the count of tiles outside the set by one.
pub proof fn lemma_tile_count_complement_add(mask: u64, tile: int)
    requires
        0 <= tile < 64,
        !tile_in(mask, tile),
    ensures
        tile_count(!(mask | (1u64 << (tile as u64)))) + 1 == tile_count(!mask),
{
    broadcast use group_tile_mask;

    let bit = tile as u64;
    assert(!(mask | (1u64 << bit)) == (!mask) & !(1u64 << bit)) by (bit_vector);
    lemma_tile_count_remove(!mask, tile, 64);
}

} // verus!
