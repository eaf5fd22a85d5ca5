//! Block types and the registers that hold them.

use vstd::prelude::*;

verus! {

/// What a block type is: its name, its hardness and blast resistance in thousandths,
/// the index of its texture, and whether light and faces show through it.
pub ghost struct BlockModel {
    pub name: Seq<char>,
    pub hardness: int,
    pub resistance: int,
    pub texture_index: u32,
    pub transparent: bool,
}

pub struct Block {
    pub name: String,
    /// Hardness, in thousandths.
    pub hardness_milli: i64,
    /// Blast resistance, in thousandths.
    pub resistance_milli: i64,
    pub texture_index: u32,
    pub transparent: bool,
}

impl View for Block {
    type V = BlockModel;

    open spec fn view(&self) -> BlockModel {
        BlockModel {
            name: self.name@,
            hardness: self.hardness_milli as int,
            resistance: self.resistance_milli as int,
            texture_index: self.texture_index,
            transparent: self.transparent,
        }
    }
}

/// Builds a `Block`; unset properties are zero and opaque.
pub struct BlockFactory {
    block: Block,
}

impl BlockFactory {
    pub closed spec fn model(&self) -> BlockModel {
        self.block@
    }

    pub fn new(name: &str) -> (r: BlockFactory)
        ensures
            r.model() == (BlockModel {
                name: name@,
                hardness: 0,
                resistance: 0,
                texture_index: 0,
                transparent: false,
            }),
    {
        BlockFactory {
            block: Block {
                name: name.to_owned(),
                hardness_milli: 0,
                resistance_milli: 0,
                texture_index: 0,
                transparent: false,
            },
        }
    }

    pub fn hardness_milli(self, hardness: i64) -> (r: BlockFactory)
        ensures
            r.model() == (BlockModel { hardness: hardness as int, ..self.model() }),
    {
        let mut block = self.block;
        block.hardness_milli = hardness;
        BlockFactory { block }
    }

    pub fn resistance_milli(self, resistance: i64) -> (r: BlockFactory)
        ensures
            r.model() == (BlockModel { resistance: resistance as int, ..self.model() }),
    {
        let mut block = self.block;
        block.resistance_milli = resistance;
        BlockFactory { block }
    }

    pub fn texture_index(self, texture_index: u32) -> (r: BlockFactory)
        ensures
            r.model() == (BlockModel { texture_index, ..self.model() }),
    {
        let mut block = self.block;
        block.texture_index = texture_index;
        BlockFactory { block }
    }

    pub fn transparent(self, transparent: bool) -> (r: BlockFactory)
        ensures
            r.model() == (BlockModel { transparent, ..self.model() }),
    {
        let mut block = self.block;
        block.transparent = transparent;
        BlockFactory { block }
    }

    pub fn build(self) -> (r: Block)
        ensures
            r@ == self.model(),
    {
        self.block
    }
}

/// Block types by id: the id of a block is its place in `blocks`.
pub struct BlockRegister {
    pub blocks: Vec<Block>,
}

impl BlockRegister {
    pub open spec fn models(&self) -> Seq<BlockModel> {
        self.blocks@.map_values(|b: Block| b@)
    }

    /// Whether block id `id` is registered and hides the faces behind it.
    pub open spec fn opaque(&self, id: u64) -> bool {
        id < self.blocks@.len() && !self.blocks@[id as int].transparent
    }

    pub fn new() -> (r: BlockRegister)
        ensures
            r.blocks@.len() == 0,
    {
        BlockRegister { blocks: Vec::new() }
    }

    /// Registers `block` under the next free id, which is returned.
    pub fn insert(&mut self, block: Block) -> (r: usize)
        ensures
            r == old(self).blocks@.len(),
            final(self).blocks@ == old(self).blocks@.push(block),
    {
        let id = self.blocks.len();
        self.blocks.push(block);
        id
    }

    pub fn is_opaque(&self, id: u64) -> (r: bool)
        ensures
            r == self.opaque(id),
    {
        if id < self.blocks.len() as u64 {
            !self.blocks[id as usize].transparent
        } else {
            false
        }
    }
}

pub struct Registry {
    pub blocks: BlockRegister,
}

impl Registry {
    pub fn new() -> (r: Registry)
        ensures
            r.blocks.blocks@.len() == 0,
    {
        Registry { blocks: BlockRegister::new() }
    }
}

/// The content sets a registry can be loaded with.
#[derive(Clone, Copy, Debug, PartialEq, Eq, Structural)]
pub enum GameVersion {
    B173,
    Orange,
}

impl GameVersion {
    /// Loads this version's content into `registry`: the Beta 1.7.3 block table, or
    /// nothing for a version with no built-in content.
    pub fn load_registry(&self, registry: &mut Registry)
        ensures
            *self == GameVersion::B173 ==> final(registry).blocks.models() == old(
                registry,
            ).blocks.models() + b173_blocks(),
            *self == GameVersion::Orange ==> final(registry).blocks.models() == old(
                registry,
            ).blocks.models(),
    {
        match self {
            GameVersion::B173 => load_b173(registry),
            _ => {},
        }
    }
}

/// A block type by its properties.
pub open spec fn b(name: &str, hardness: int, resistance: int, texture_index: u32, transparent: bool) -> BlockModel {
    BlockModel { name: name@, hardness, resistance, texture_index, transparent }
}

/// The Beta 1.7.3 block table, in id order.
pub open spec fn b173_blocks() -> Seq<BlockModel> {
    seq![
        b("air", 0, 0, 0, true),
        b("stone", 1500, 10000, 1, false),
        b("grass", 600, 0, 3, false),
        b("dirt", 500, 0, 2, false),
        b("cobblestone", 2000, 10000, 16, false),
        b("wood", 2000, 5000, 4, false),
        b("sapling", 0, 0, 15, true),
        b("bedrock", -1000, 6000000000, 17, false),
        b("flowing_water", 100000, 0, 222, true),
        b("still_water", 100000, 0, 222, true),
        b("flowing_lava", 0, 0, 255, true),
        b("still_lava", 100000, 0, 255, true),
        b("sand", 500, 0, 18, false),
        b("gravel", 500, 0, 19, false),
        b("ore_gold", 3000, 5000, 32, false),
        b("ore_iron", 3000, 5000, 33, false),
        b("ore_coal", 3000, 5000, 34, false),
        b("wood", 2000, 0, 20, false),
        b("leaves", 200, 0, 52, false),
        b("sponge", 600, 0, 48, false),
        b("glass", 300, 6000000000, 49, false),
        b("ore_lapis", 3000, 5000, 160, false),
        b("block_lapis", 3000, 5000, 144, false),
        b("dispenser", 3500, 0, 46, false),
        b("sandstone", 800, 0, 176, false),
        b("noteblock", 800, 0, 17, false),
        b("bed", 200, 0, 149, false),
        b("powered_rail", 700, 0, 179, false),
        b("detector_rail", 700, 0, 195, false),
        b("sticky_piston", 0, 0, 106, false),
        b("web", 4000, 0, 11, false),
        b("tall_grass", 0, 0, 39, false),
        b("dead_bush", 0, 0, 55, false),
        b("piston", 0, 0, 107, false),
        b("piston_extension", 0, 0, 107, false),
        b("wool", 800, 0, 64, false),
        b("piston_moving", -1000, 0, 0, false),
        b("yellow_flower", 0, 0, 13, false),
        b("red_flower", 0, 0, 12, false),
        b("brown_mushroom", 0, 0, 29, false),
        b("red_mushroom", 0, 0, 28, false),
        b("block_gold", 3000, 10000, 23, false),
        b("block_iron", 5000, 10000, 22, false),
        b("double_stair", 2000, 10000, 6, false),
        b("single_stair", 2000, 10000, 6, false),
        b("brick_block", 2000, 10000, 7, false),
        b("tnt", 0, 0, 8, false),
        b("bookshelf", 1500, 0, 35, false),
        b("mossy_cobblestone", 2000, 10000, 36, false),
        b("obsidian", 10000, 2000000, 37, false),
        b("torch", 0, 0, 80, false),
        b("fire", 0, 0, 31, false),
        b("mob_spawner", 5000, 0, 65, false),
        b("wooden_stairs", 0, 0, 6, false),
        b("chest", 2500, 0, 27, false),
        b("redstone_dust", 0, 0, 164, false),
        b("ore_diamond", 3000, 5000, 50, false),
        b("block_diamond", 5000, 10000, 24, false),
        b("workbench", 2500, 0, 43, false),
        b("crops", 0, 0, 88, false),
        b("tilled_dirt", 600, 0, 87, false),
        b("furnace", 3500, 0, 44, false),
        b("furnace_active", 3500, 0, 61, false),
        b("sign", 1000, 0, 4, false),
        b("wooden_door", 3000, 0, 71, false),
        b("ladder", 400, 0, 83, false),
        b("rail", 700, 0, 128, false),
        b("cobblestone_stair", 3000, 0, 16, false),
        b("wall_sign", 1000, 0, 4, false),
        b("lever", 500, 0, 96, false),
        b("stone_pressure_plate", 500, 0, 1, false),
        b("iron_door", 3000, 0, 72, false),
        b("wooden_pressure_plate", 500, 0, 4, false),
        b("ore_redstone", 3000, 5000, 51, false),
        b("ore_redstone_glowing", 3000, 5000, 51, false),
        b("torch_redstone_off", 0, 0, 115, false),
        b("torch_redstone_on", 0, 0, 99, false),
        b("button", 500, 0, 1, false),
        b("snow_layer", 100, 0, 66, false),
        b("ice", 500, 0, 67, true),
        b("snow", 200, 0, 66, false),
        b("cactus", 400, 0, 70, false),
        b("clay_block", 600, 6000000000, 72, false),
        b("reed", 0, 0, 73, true),
        b("jukebox", 2000, 10000, 74, false),
        b("fence", 2000, 5000, 4, true),
        b("pumpkin", 1000, 0, 102, false),
        b("netherrack", 400, 0, 103, false),
        b("soulsand", 500, 0, 104, false),
        b("glowstone_block", 300, 0, 105, false),
        b("portal", -1000, 0, 14, false),
        b("pumpkin_lantern", 1000, 0, 102, false),
        b("cake", 500, 0, 121, false),
        b("repeater_off", 0, 0, 131, false),
        b("repeater_on", 0, 0, 147, false),
        b("locked_chest", 0, 0, 27, false),
        b("trapdoor", -1000, 0, 84, false),
    ]
}

/// Registers the Beta 1.7.3 blocks, in id order, after those already registered.
pub fn load_b173(registry: &mut Registry)
    ensures
        final(registry).blocks.models() == old(registry).blocks.models() + b173_blocks(),
{
    let block_register_list: Vec<Block> = vec![
        BlockFactory::new("air").texture_index(0).transparent(true).build(),
        BlockFactory::new("stone").hardness_milli(1500).resistance_milli(10000).texture_index(1).build(),
        BlockFactory::new("grass").hardness_milli(600).texture_index(3).build(),
        BlockFactory::new("dirt").hardness_milli(500).texture_index(2).build(),
        BlockFactory::new("cobblestone").hardness_milli(2000).resistance_milli(10000).texture_index(16).build(),
        BlockFactory::new("wood").hardness_milli(2000).resistance_milli(5000).texture_index(4).build(),
        BlockFactory::new("sapling").texture_index(15).transparent(true).build(),
        BlockFactory::new("bedrock").hardness_milli(-1000).resistance_milli(6000000000).texture_index(17).build(),
        BlockFactory::new("flowing_water").hardness_milli(100000).texture_index(222).transparent(true).build(),
        BlockFactory::new("still_water").hardness_milli(100000).texture_index(222).transparent(true).build(),
        BlockFactory::new("flowing_lava").texture_index(255).transparent(true).build(),
        BlockFactory::new("still_lava").hardness_milli(100000).texture_index(255).transparent(true).build(),
        BlockFactory::new("sand").hardness_milli(500).texture_index(18).build(),
        BlockFactory::new("gravel").hardness_milli(500).texture_index(19).build(),
        BlockFactory::new("ore_gold").hardness_milli(3000).resistance_milli(5000).texture_index(32).build(),
        BlockFactory::new("ore_iron").hardness_milli(3000).resistance_milli(5000).texture_index(33).build(),
        BlockFactory::new("ore_coal").hardness_milli(3000).resistance_milli(5000).texture_index(34).build(),
        BlockFactory::new("wood").hardness_milli(2000).texture_index(20).build(),
        BlockFactory::new("leaves").hardness_milli(200).texture_index(52).build(),
        BlockFactory::new("sponge").hardness_milli(600).texture_index(48).build(),
        BlockFactory::new("glass").hardness_milli(300).resistance_milli(6000000000).texture_index(49).build(),
        BlockFactory::new("ore_lapis").hardness_milli(3000).resistance_milli(5000).texture_index(160).build(),
        BlockFactory::new("block_lapis").hardness_milli(3000).resistance_milli(5000).texture_index(144).build(),
        BlockFactory::new("dispenser").hardness_milli(3500).texture_index(46).build(),
        BlockFactory::new("sandstone").hardness_milli(800).texture_index(176).build(),
        BlockFactory::new("noteblock").hardness_milli(800).texture_index(17).build(),
        BlockFactory::new("bed").hardness_milli(200).texture_index(149).build(),
        BlockFactory::new("powered_rail").hardness_milli(700).texture_index(179).build(),
        BlockFactory::new("detector_rail").hardness_milli(700).texture_index(195).build(),
        BlockFactory::new("sticky_piston").texture_index(106).build(),
        BlockFactory::new("web").hardness_milli(4000).texture_index(11).build(),
        BlockFactory::new("tall_grass").texture_index(39).build(),
        BlockFactory::new("dead_bush").texture_index(55).build(),
        BlockFactory::new("piston").texture_index(107).build(),
        BlockFactory::new("piston_extension").texture_index(107).build(),
        BlockFactory::new("wool").hardness_milli(800).texture_index(64).build(),
        BlockFactory::new("piston_moving").hardness_milli(-1000).texture_index(0).build(),
        BlockFactory::new("yellow_flower").texture_index(13).build(),
        BlockFactory::new("red_flower").texture_index(12).build(),
        BlockFactory::new("brown_mushroom").texture_index(29).build(),
        BlockFactory::new("red_mushroom").texture_index(28).build(),
        BlockFactory::new("block_gold").hardness_milli(3000).resistance_milli(10000).texture_index(23).build(),
        BlockFactory::new("block_iron").hardness_milli(5000).resistance_milli(10000).texture_index(22).build(),
        BlockFactory::new("double_stair").hardness_milli(2000).resistance_milli(10000).texture_index(6).build(),
        BlockFactory::new("single_stair").hardness_milli(2000).resistance_milli(10000).texture_index(6).build(),
        BlockFactory::new("brick_block").hardness_milli(2000).resistance_milli(10000).texture_index(7).build(),
        BlockFactory::new("tnt").texture_index(8).build(),
        BlockFactory::new("bookshelf").hardness_milli(1500).texture_index(35).build(),
        BlockFactory::new("mossy_cobblestone").hardness_milli(2000).resistance_milli(10000).texture_index(36).build(),
        BlockFactory::new("obsidian").hardness_milli(10000).resistance_milli(2000000).texture_index(37).build(),
        BlockFactory::new("torch").texture_index(80).build(),
        BlockFactory::new("fire").texture_index(31).build(),
        BlockFactory::new("mob_spawner").hardness_milli(5000).texture_index(65).build(),
        BlockFactory::new("wooden_stairs").texture_index(6).build(),
        BlockFactory::new("chest").hardness_milli(2500).texture_index(27).build(),
        BlockFactory::new("redstone_dust").texture_index(164).build(),
        BlockFactory::new("ore_diamond").hardness_milli(3000).resistance_milli(5000).texture_index(50).build(),
        BlockFactory::new("block_diamond").hardness_milli(5000).resistance_milli(10000).texture_index(24).build(),
        BlockFactory::new("workbench").hardness_milli(2500).texture_index(43).build(),
        BlockFactory::new("crops").texture_index(88).build(),
        BlockFactory::new("tilled_dirt").hardness_milli(600).texture_index(87).build(),
        BlockFactory::new("furnace").hardness_milli(3500).texture_index(44).build(),
        BlockFactory::new("furnace_active").hardness_milli(3500).texture_index(61).build(),
        BlockFactory::new("sign").hardness_milli(1000).texture_index(4).build(),
        BlockFactory::new("wooden_door").hardness_milli(3000).texture_index(71).build(),
        BlockFactory::new("ladder").hardness_milli(400).texture_index(83).build(),
        BlockFactory::new("rail").hardness_milli(700).texture_index(128).build(),
        BlockFactory::new("cobblestone_stair").hardness_milli(3000).texture_index(16).build(),
        BlockFactory::new("wall_sign").hardness_milli(1000).texture_index(4).build(),
        BlockFactory::new("lever").hardness_milli(500).texture_index(96).build(),
        BlockFactory::new("stone_pressure_plate").hardness_milli(500).texture_index(1).build(),
        BlockFactory::new("iron_door").hardness_milli(3000).texture_index(72).build(),
        BlockFactory::new("wooden_pressure_plate").hardness_milli(500).texture_index(4).build(),
        BlockFactory::new("ore_redstone").hardness_milli(3000).resistance_milli(5000).texture_index(51).build(),
        BlockFactory::new("ore_redstone_glowing").hardness_milli(3000).resistance_milli(5000).texture_index(51).build(),
        BlockFactory::new("torch_redstone_off").texture_index(115).build(),
        BlockFactory::new("torch_redstone_on").texture_index(99).build(),
        BlockFactory::new("button").hardness_milli(500).texture_index(1).build(),
        BlockFactory::new("snow_layer").hardness_milli(100).texture_index(66).build(),
        BlockFactory::new("ice").hardness_milli(500).texture_index(67).transparent(true).build(),
        BlockFactory::new("snow").hardness_milli(200).texture_index(66).build(),
        BlockFactory::new("cactus").hardness_milli(400).texture_index(70).build(),
        BlockFactory::new("clay_block").hardness_milli(600).resistance_milli(6000000000).texture_index(72).build(),
        BlockFactory::new("reed").texture_index(73).transparent(true).build(),
        BlockFactory::new("jukebox").hardness_milli(2000).resistance_milli(10000).texture_index(74).build(),
        BlockFactory::new("fence").hardness_milli(2000).resistance_milli(5000).texture_index(4).transparent(true).build(),
        BlockFactory::new("pumpkin").hardness_milli(1000).texture_index(102).build(),
        BlockFactory::new("netherrack").hardness_milli(400).texture_index(103).build(),
        BlockFactory::new("soulsand").hardness_milli(500).texture_index(104).build(),
        BlockFactory::new("glowstone_block").hardness_milli(300).texture_index(105).build(),
        BlockFactory::new("portal").hardness_milli(-1000).texture_index(14).build(),
        BlockFactory::new("pumpkin_lantern").hardness_milli(1000).texture_index(102).build(),
        BlockFactory::new("cake").hardness_milli(500).texture_index(121).build(),
        BlockFactory::new("repeater_off").texture_index(131).build(),
        BlockFactory::new("repeater_on").texture_index(147).build(),
        BlockFactory::new("locked_chest").texture_index(27).build(),
        BlockFactory::new("trapdoor").hardness_milli(-1000).texture_index(84).build(),
    ];
    let ghost list_models = block_register_list@.map_values(|bl: Block| bl@);
    assert(list_models =~= b173_blocks());
    let ghost start = registry.blocks.models();
    let ghost n = list_models.len();
    let mut remaining = block_register_list;
    while remaining.len() > 0
        invariant
            remaining@.len() <= n,
            n == list_models.len(),
            remaining@.map_values(|bl: Block| bl@) == list_models.subrange(
                n - remaining@.len(),
                n as int,
            ),
            registry.blocks.models() == start + list_models.subrange(0, n - remaining@.len()),
        decreases remaining@.len(),
    {
        let ghost done = n - remaining@.len();
        let ghost rest = remaining@;
        let block = remaining.remove(0);
        assert(block@ == list_models[done]) by {
            assert(rest.map_values(|bl: Block| bl@)[0] == list_models[done]);
        }
        assert(remaining@.map_values(|bl: Block| bl@) =~= list_models.subrange(done + 1, n as int))
            by {
            assert forall|j: int| 0 <= j < remaining@.len() implies #[trigger] remaining@[j]@
                == list_models[done + 1 + j] by {
                assert(remaining@[j] == rest[j + 1]);
                assert(rest.map_values(|bl: Block| bl@)[j + 1] == list_models[done + 1 + j]);
            }
        }
        let ghost before = registry.blocks.models();
        registry.blocks.insert(block);
        assert(registry.blocks.models() =~= before.push(block@));
        assert(list_models.subrange(0, done + 1) =~= list_models.subrange(0, done).push(block@));
    }
    assert(list_models.subrange(0, n as int) =~= list_models);
}

} // verus!
