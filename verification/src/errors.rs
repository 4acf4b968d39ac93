use vstd::prelude::*;
use crate::types::EquipmentSlot;

verus! {

/// Why a game request was refused.
#[allow(inconsistent_fields)]
#[derive(Clone, Copy, Debug, PartialEq, Eq, Structural)]
pub enum GameError {
    /// No item definition with this id.
    DefinitionNotFound { def_id: u64 },
    /// No item definition with the name the rule needs (such as "Wood").
    NamedDefinitionNotFound,
    /// No item row with this instance id.
    ItemNotFound { instance_id: u64 },
    /// The item is not owned by the caller (or does not exist).
    ItemNotFoundOrNotOwned { instance_id: u64 },
    /// The item belongs to another player.
    ItemNotOwned { instance_id: u64 },
    /// Neither the hotbar nor the main inventory has a free slot.
    InventoryFull,
    /// The two stacks hold different items or the item does not stack.
    CannotMerge,
    /// The target stack has no room left.
    TargetStackFull,
    /// Split quantity is zero or not below the stack size.
    InvalidSplitQuantity,
    /// A split of zero items.
    ZeroQuantity,
    /// More items requested than the stack holds.
    QuantityExceedsStack { requested: u32, available: u32 },
    /// The item does not stack.
    NotStackable,
    /// A slot type other than "inventory" or "hotbar".
    InvalidSlotType,
    /// Inventory slot index beyond 23.
    InvalidInventorySlot { slot: u32 },
    /// Hotbar slot index beyond 5.
    InvalidHotbarSlot { slot: u32 },
    /// The target player slot holds an item already.
    TargetSlotOccupied { slot: u32 },
    /// A split stack cannot be dropped onto a different item.
    SplitOntoIncompatible { slot: u32 },
    /// The item is already in the hotbar.
    AlreadyInHotbar,
    /// The item must be in the main inventory.
    NotInInventory,
    /// The item must be in the hotbar or the main inventory.
    NotInPlayerSlots,
    /// No free hotbar slot.
    HotbarFull,
    /// The item is not armor.
    NotArmor,
    /// The armor definition names no body slot.
    NoEquipmentSlot,
    /// A body slot name other than the six known ones.
    InvalidEquipmentSlotName,
    /// The armor goes into another body slot than the one named.
    WrongEquipmentSlot { required: EquipmentSlot, target: EquipmentSlot },
    /// The player has no equipment row.
    EquipmentNotFound,
    /// The previously worn item could not be found.
    EquippedItemMissing,
    /// The player has no equipped main-hand item.
    NothingEquipped,
    /// Container slot index out of range.
    SlotOutOfBounds { slot: u8 },
    /// The container slot is empty.
    SlotEmpty { slot: u8 },
    /// Source and target container slots are invalid or the same.
    InvalidSlotPair,
    /// The container slot names an item with no definition id.
    SlotDefinitionMissing,
    /// The container has no room for the item.
    ContainerFull,
    /// The container still holds items.
    ContainerNotEmpty,
    /// The split stack cannot merge onto the item in the target slot.
    SplitMergeFailed { slot: u8, reason_full: bool },
    /// The campfire has no Wood with quantity above zero.
    NoFuel,
    /// No recipe with this id.
    RecipeNotFound { recipe_id: u64 },
    /// Ingredients are missing for the recipe.
    MissingIngredient { def_id: u64, missing: u32 },
    /// No crafting queue entry with this id.
    QueueItemNotFound { queue_item_id: u64 },
    /// The queue entry belongs to another player.
    QueueItemNotOwned,
    /// Cancelled, but some refunded items had to be dropped.
    RefundDropped,
    /// The player is dead.
    PlayerDead,
    /// The player is not dead.
    NotDead,
    /// Jumped again within the cooldown.
    JumpCooldown,
    /// Respawn requested before the respawn time.
    RespawnNotReady { remaining_secs: u64 },
    /// An empty chat message.
    EmptyMessage,
    /// A chat message longer than 100 bytes.
    MessageTooLong,
    /// No buff with this id.
    BuffNotFound { buff_id: u64 },
    /// The buff belongs to another player.
    BuffNotOwned,
    /// The player already picked a character.
    CharacterAlreadySelected,
    /// The calling player has no player row.
    PlayerNotFound,
    /// No campfire with this id.
    CampfireNotFound { campfire_id: u32 },
    /// No storage box with this id.
    BoxNotFound { box_id: u32 },
    /// The player is too far away to interact or place.
    TooFarAway,
    /// Too close to another campfire to place one.
    TooCloseToCampfire,
    /// The item is not of the kind the placement needs.
    WrongItemKind { expected: u64, actual: u64 },
    /// Another player has this username.
    UsernameTaken,
    /// The identity has a player row already.
    AlreadyRegistered,
}

} // verus!
