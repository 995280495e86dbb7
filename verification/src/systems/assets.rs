use vstd::prelude::*;
use bevy::math::UVec2;
use bevy::sprite::TextureAtlasLayout;
use crate::state::AppState;
use crate::systems::domino_grid::components::{DominoColor, DominoType};

verus! {

/// Width of one domino sprite in the atlas image, in pixels.
pub const DOMINO_TILE_WIDTH: u32 = 64;

/// Height of one domino sprite in the atlas image, in pixels.
pub const DOMINO_TILE_HEIGHT: u32 = 32;

/// Number of sprite columns in the domino atlas image.
pub const DOMINO_ATLAS_COLUMNS: u32 = 4;

/// Number of sprite rows in the domino atlas image.
pub const DOMINO_ATLAS_ROWS: u32 = 3;

/// Handle of a loaded asset, as the asset store numbers it.
#[derive(Clone, Copy, Debug, PartialEq, Eq, Structural)]
pub struct AssetHandle {
    pub id: u64,
}

impl Default for AssetHandle {
    fn default() -> (handle: AssetHandle)
        ensures
            handle.id == 0,
    {
        AssetHandle { id: 0 }
    }
}

/// The handles whose loading has been started and not yet confirmed.
#[derive(Clone, Debug, PartialEq, Eq)]
pub struct AssetsLoading(pub Vec<AssetHandle>);

impl Default for AssetsLoading {
    fn default() -> (loading: AssetsLoading)
        ensures
            loading.0@ == Seq::<AssetHandle>::empty(),
    {
        AssetsLoading(Vec::new())
    }
}

/// An image, with the layout of its atlas where it is a sprite sheet.
#[derive(Clone, Copy, Debug, PartialEq, Eq, Structural)]
pub struct ImageAsset {
    pub image: AssetHandle,
    pub atlas: Option<AssetHandle>,
}

impl Default for ImageAsset {
    fn default() -> (asset: ImageAsset)
        ensures
            asset == (ImageAsset { image: AssetHandle { id: 0 }, atlas: None }),
    {
        ImageAsset { image: AssetHandle { id: 0 }, atlas: None }
    }
}

/// The sprite sheet of the dominoes.
#[derive(Clone, Copy, Debug, PartialEq, Eq, Structural)]
pub struct DominoesAssetInfo {
    pub image_asset: ImageAsset,
}

impl Default for DominoesAssetInfo {
    fn default() -> (info: DominoesAssetInfo)
        ensures
            info.image_asset == (ImageAsset { image: AssetHandle { id: 0 }, atlas: None }),
    {
        DominoesAssetInfo { image_asset: ImageAsset::default() }
    }
}

/// The images of the game.
#[derive(Clone, Copy, Debug, PartialEq, Eq, Structural)]
pub struct LoadedImages {
    pub ground: ImageAsset,
    pub dominoes: DominoesAssetInfo,
    pub grid_square: ImageAsset,
}

impl Default for LoadedImages {
    fn default() -> (images: LoadedImages)
        ensures
            images.ground == (ImageAsset { image: AssetHandle { id: 0 }, atlas: None }),
            images.dominoes.image_asset == images.ground,
            images.grid_square == images.ground,
    {
        LoadedImages {
            ground: ImageAsset::default(),
            dominoes: DominoesAssetInfo::default(),
            grid_square: ImageAsset::default(),
        }
    }
}

/// Every asset of the game.
#[derive(Clone, Copy, Debug, PartialEq, Eq, Structural)]
pub struct LoadedAssets {
    pub images: LoadedImages,
}

impl Default for LoadedAssets {
    fn default() -> (assets: LoadedAssets)
        ensures
            assets.images.ground == (ImageAsset { image: AssetHandle { id: 0 }, atlas: None }),
            assets.images.dominoes.image_asset == assets.images.ground,
            assets.images.grid_square == assets.images.ground,
    {
        LoadedAssets { images: LoadedImages::default() }
    }
}

/// One cell of an atlas: which layout, and which of its cells.
#[derive(Clone, Copy, Debug, PartialEq, Eq, Structural)]
pub struct TextureAtlas {
    pub layout: AssetHandle,
    pub index: usize,
}

/// What the renderer needs to draw an entity.
#[derive(Clone, Copy, Debug, PartialEq, Eq, Structural)]
pub struct Sprite {
    pub image: AssetHandle,
    pub texture_atlas: Option<TextureAtlas>,
    /// Whether the image is mirrored along its vertical axis.
    pub flip_x: bool,
}

/// Where the sprite of a domino lies in the atlas, and whether it has to be
/// mirrored.
#[derive(Clone, Copy, Debug, PartialEq, Eq, Structural)]
pub struct DominoInfo {
    pub index: usize,
    pub flipped: bool,
}

impl DominoInfo {
    /// The sprite in atlas cell `index`, mirrored.
    pub fn flipped(index: usize) -> (info: DominoInfo)
        ensures
            info == (DominoInfo { index, flipped: true }),
    {
        DominoInfo { index, flipped: true }
    }

    /// The sprite in atlas cell `index`, as it is drawn in the atlas.
    pub fn unflipped(index: usize) -> (info: DominoInfo)
        ensures
            info == (DominoInfo { index, flipped: false }),
    {
        DominoInfo { index, flipped: false }
    }
}

/// The order in which the atlas lists the colours: a pair of colours is
/// drawn with the colour of lower rank first.
pub open spec fn color_rank(color: DominoColor) -> int {
    match color {
        DominoColor::Blue => 0,
        DominoColor::Red => 1,
        DominoColor::Green => 2,
        DominoColor::Yellow => 3,
    }
}

/// The atlas cell that shows the pair of colours `first`, `second`, where
/// `first` is the colour of lower or equal rank.
pub open spec fn pair_index(first: DominoColor, second: DominoColor) -> int {
    match (first, second) {
        (DominoColor::Blue, DominoColor::Blue) => 0,
        (DominoColor::Yellow, DominoColor::Yellow) => 1,
        (DominoColor::Green, DominoColor::Green) => 2,
        (DominoColor::Red, DominoColor::Red) => 3,
        (DominoColor::Red, DominoColor::Green) => 4,
        (DominoColor::Blue, DominoColor::Green) => 5,
        (DominoColor::Green, DominoColor::Yellow) => 6,
        (DominoColor::Blue, DominoColor::Red) => 7,
        (DominoColor::Blue, DominoColor::Yellow) => 8,
        (DominoColor::Red, DominoColor::Yellow) => 9,
        _ => 0,
    }
}

/// Whether the atlas draws the two colours of `domino` in the other order,
/// so that its sprite has to be mirrored.
pub open spec fn is_mirrored(domino: DominoType) -> bool {
    color_rank(domino.base()) > color_rank(domino.secondary())
}

/// The atlas cell and the mirroring of the sprite of `domino`.
pub open spec fn sprite_info_spec(domino: DominoType) -> DominoInfo {
    if is_mirrored(domino) {
        DominoInfo {
            index: pair_index(domino.secondary(), domino.base()) as usize,
            flipped: true,
        }
    } else {
        DominoInfo {
            index: pair_index(domino.base(), domino.secondary()) as usize,
            flipped: false,
        }
    }
}

/// The piece with the two colours of `domino` exchanged.
pub open spec fn mirror_image(domino: DominoType) -> DominoType {
    match domino.secondary() {
        DominoColor::Blue => DominoType::Blue(domino.base()),
        DominoColor::Red => DominoType::Red(domino.base()),
        DominoColor::Green => DominoType::Green(domino.base()),
        DominoColor::Yellow => DominoType::Yellow(domino.base()),
    }
}

/// The sprite of `domino` on the sprite sheet `sheet`, which has an atlas.
pub open spec fn domino_sprite(sheet: DominoesAssetInfo, domino: DominoType) -> Sprite {
    Sprite {
        image: sheet.image_asset.image,
        texture_atlas: Some(
            TextureAtlas {
                layout: sheet.image_asset.atlas->0,
                index: sprite_info_spec(domino).index,
            },
        ),
        flip_x: sprite_info_spec(domino).flipped,
    }
}

impl DominoesAssetInfo {
    /// Finds the sprite of `domino` in the atlas.  A piece whose colours
    /// the atlas draws in the other order uses the cell of its mirror image,
    /// mirrored.
    pub fn sprite_info(&self, domino: &DominoType) -> (info: DominoInfo)
        ensures
            info == sprite_info_spec(*domino),
        decreases (if is_mirrored(*domino) { 1int } else { 0int }),
    {
        match domino {
            DominoType::Blue(color) => {
                match color {
                    DominoColor::Blue => DominoInfo::unflipped(0),
                    DominoColor::Green => DominoInfo::unflipped(5),
                    DominoColor::Red => DominoInfo::unflipped(7),
                    DominoColor::Yellow => DominoInfo::unflipped(8),
                }
            },
            DominoType::Red(color) => {
                match color {
                    DominoColor::Red => DominoInfo::unflipped(3),
                    DominoColor::Blue => DominoInfo::flipped(
                        self.sprite_info(&DominoType::Blue(DominoColor::Red)).index,
                    ),
                    DominoColor::Green => DominoInfo::unflipped(4),
                    DominoColor::Yellow => DominoInfo::unflipped(9),
                }
            },
            DominoType::Green(color) => {
                match color {
                    DominoColor::Green => DominoInfo::unflipped(2),
                    DominoColor::Yellow => DominoInfo::unflipped(6),
                    DominoColor::Blue => DominoInfo::flipped(
                        self.sprite_info(&DominoType::Blue(DominoColor::Green)).index,
                    ),
                    DominoColor::Red => DominoInfo::flipped(
                        self.sprite_info(&DominoType::Red(DominoColor::Green)).index,
                    ),
                }
            },
            DominoType::Yellow(color) => {
                match color {
                    DominoColor::Yellow => DominoInfo::unflipped(1),
                    DominoColor::Blue => DominoInfo::flipped(
                        self.sprite_info(&DominoType::Blue(DominoColor::Yellow)).index,
                    ),
                    DominoColor::Green => DominoInfo::flipped(
                        self.sprite_info(&DominoType::Green(DominoColor::Yellow)).index,
                    ),
                    DominoColor::Red => DominoInfo::flipped(
                        self.sprite_info(&DominoType::Red(DominoColor::Yellow)).index,
                    ),
                }
            },
        }
    }

    /// The sprite of `domino`: its cell of the domino atlas, mirrored where
    /// the atlas draws the colours in the other order.  The atlas has to be
    /// set, which initialisation does before any piece is spawned.
    pub fn get_domino(&self, domino: &DominoType) -> (sprite: Sprite)
        requires
            self.image_asset.atlas is Some,
        ensures
            sprite == domino_sprite(*self, *domino),
    {
        let info: DominoInfo = self.sprite_info(domino);
        let texture_atlas: Option<TextureAtlas> = match self.image_asset.atlas {
            Some(atlas) => Some(TextureAtlas { index: info.index, layout: atlas }),
            None => None,
        };
        Sprite { image: self.image_asset.image, texture_atlas, flip_x: info.flipped }
    }
}

/// The sprite of a piece and that of its mirror image lie in the same atlas
/// cell, and exactly one of the two is mirrored unless both halves have one
/// colour.
pub proof fn lemma_mirror_image_shares_cell(domino: DominoType)
    ensures
        sprite_info_spec(mirror_image(domino)).index == sprite_info_spec(domino).index,
        domino.base() != domino.secondary() ==> sprite_info_spec(mirror_image(domino)).flipped
            != sprite_info_spec(domino).flipped,
        domino.base() == domino.secondary() ==> !sprite_info_spec(domino).flipped,
{
}

/// Every sprite lies in a cell of the domino atlas, and two pieces share a
/// cell only if they are equal or mirror images of each other.
pub proof fn lemma_sprite_cells(a: DominoType, b: DominoType)
    ensures
        sprite_info_spec(a).index < DOMINO_ATLAS_COLUMNS * DOMINO_ATLAS_ROWS,
        sprite_info_spec(a).index == sprite_info_spec(b).index ==> b == a || b == mirror_image(a),
{
}

impl ImageAsset {
    /// The sprite that shows the whole image.
    pub fn get_sprite(&self) -> (sprite: Sprite)
        ensures
            sprite == (Sprite { image: self.image, texture_atlas: None, flip_x: false }),
    {
        Sprite { image: self.image, texture_atlas: None, flip_x: false }
    }

    /// The sprite that shows cell `atlas_index` of the image's atlas, or the
    /// whole image where it has no atlas.
    pub fn get_sprite_at(&self, atlas_index: usize) -> (sprite: Sprite)
        ensures
            sprite.image == self.image,
            sprite.flip_x == false,
            sprite.texture_atlas == match self.atlas {
                Some(atlas) => Some(TextureAtlas { layout: atlas, index: atlas_index }),
                None => None,
            },
    {
        let texture_atlas: Option<TextureAtlas> = match self.atlas {
            Some(atlas) => Some(TextureAtlas { index: atlas_index, layout: atlas }),
            None => None,
        };
        Sprite { image: self.image, texture_atlas, flip_x: false }
    }
}

#[verifier::external_type_specification]
#[verifier::external_body]
pub struct ExTextureAtlasLayout(TextureAtlasLayout);

/// One cell of an atlas image, in pixels: the corner with the least and
/// the corner with the greatest coordinates.
#[derive(Clone, Copy, Debug, PartialEq, Eq, Structural)]
pub struct AtlasCell {
    pub min_x: u32,
    pub min_y: u32,
    pub max_x: u32,
    pub max_y: u32,
}

/// The cells that an atlas layout lists in its `textures`, in index order,
/// each rectangle given by its `min` and `max` corners.
pub uninterp spec fn layout_cells(layout: TextureAtlasLayout) -> Seq<AtlasCell>;

/// Cell number `index` of a grid of tiles that is `columns` tiles wide:
/// the cells are numbered from left to right, then from top to bottom.
pub open spec fn grid_cell(tile_width: u32, tile_height: u32, columns: u32, index: int) -> AtlasCell {
    let x = index % (columns as int);
    let y = index / (columns as int);
    AtlasCell {
        min_x: (tile_width * x) as u32,
        min_y: (tile_height * y) as u32,
        max_x: (tile_width * (x + 1)) as u32,
        max_y: (tile_height * (y + 1)) as u32,
    }
}

/// The cells of a grid of `columns` by `rows` tiles.
pub open spec fn grid_cells(tile_width: u32, tile_height: u32, columns: u32, rows: u32) -> Seq<
    AtlasCell,
> {
    Seq::new((columns * rows) as nat, |index: int| grid_cell(tile_width, tile_height, columns, index))
}

/// Calls bevy's `TextureAtlasLayout::from_grid` with no padding and no
/// offset.  Believed of it, not proved: the layout lists one cell for each
/// tile of the grid, row by row from the top and within a row from the
/// left, each cell one tile wide and high and touching its neighbours.
/// The grid has to fit into `u32` pixel coordinates: beyond that the
/// function overflows.
#[verifier::external_body]
fn layout_from_grid(tile_width: u32, tile_height: u32, columns: u32, rows: u32) -> (layout:
    TextureAtlasLayout)
    requires
        tile_width * columns <= u32::MAX,
        tile_height * rows <= u32::MAX,
    ensures
        layout_cells(layout) == grid_cells(tile_width, tile_height, columns, rows),
{
    TextureAtlasLayout::from_grid(UVec2::new(tile_width, tile_height), columns, rows, None, None)
}

/// The layout of the domino atlas: a grid of `DOMINO_ATLAS_COLUMNS` by
/// `DOMINO_ATLAS_ROWS` sprites.  The sprite of every piece lies in one of
/// its cells.
pub fn dominoes_layout() -> (layout: TextureAtlasLayout)
    ensures
        layout_cells(layout) == grid_cells(
            DOMINO_TILE_WIDTH,
            DOMINO_TILE_HEIGHT,
            DOMINO_ATLAS_COLUMNS,
            DOMINO_ATLAS_ROWS,
        ),
        forall|domino: DominoType| #[trigger]
            sprite_info_spec(domino).index < layout_cells(layout).len(),
{
    let layout = layout_from_grid(
        DOMINO_TILE_WIDTH,
        DOMINO_TILE_HEIGHT,
        DOMINO_ATLAS_COLUMNS,
        DOMINO_ATLAS_ROWS,
    );
    assert forall|domino: DominoType| #[trigger]
        sprite_info_spec(domino).index < layout_cells(layout).len() by {
        lemma_sprite_cells(domino, domino);
    }
    layout
}

/// Registers the three images once their loading has been started.  The
/// handles are listed as loading, in the order ground, dominoes, placement
/// area, and the asset table is filled: only the dominoes image has an
/// atlas.
pub fn init_assets(
    ground_image: AssetHandle,
    dominoes_image: AssetHandle,
    placement_area: AssetHandle,
    dominoes_atlas: AssetHandle,
    loading_assets: &mut AssetsLoading,
    loaded_assets: &mut LoadedAssets,
)
    ensures
        final(loading_assets).0@ == old(loading_assets).0@ + seq![
            ground_image,
            dominoes_image,
            placement_area,
        ],
        final(loaded_assets).images.ground == (ImageAsset { image: ground_image, atlas: None }),
        final(loaded_assets).images.dominoes.image_asset == (ImageAsset {
            image: dominoes_image,
            atlas: Some(dominoes_atlas),
        }),
        final(loaded_assets).images.grid_square == (ImageAsset {
            image: placement_area,
            atlas: None,
        }),
{
    loading_assets.0.push(ground_image);
    loading_assets.0.push(dominoes_image);
    loading_assets.0.push(placement_area);
    loaded_assets.images.ground = ImageAsset { image: ground_image, atlas: None };
    loaded_assets.images.dominoes = DominoesAssetInfo {
        image_asset: ImageAsset { image: dominoes_image, atlas: Some(dominoes_atlas) },
    };
    loaded_assets.images.grid_square = ImageAsset { image: placement_area, atlas: None };
}

/// Whether every asset has been loaded.
pub open spec fn all_loaded(load_states: Seq<bool>) -> bool {
    forall|i: int| 0 <= i < load_states.len() ==> load_states[i]
}

/// Decides whether loading is over.  `load_states` holds, for each asset
/// that is listed as loading, whether the asset server has loaded it.  The
/// result is the state to enter: `Ready` once every asset is loaded, and
/// none while one is missing.
pub fn check_assets_loading(load_states: &Vec<bool>) -> (next: Option<AppState>)
    ensures
        next == if all_loaded(load_states@) {
            Some(AppState::Ready)
        } else {
            None::<AppState>
        },
{
    let mut any_unloaded: bool = false;
    let mut i: usize = 0;
    while i < load_states.len()
        invariant_except_break
            i <= load_states.len(),
            !any_unloaded,
            forall|j: int| 0 <= j < i ==> load_states@[j],
        ensures
            any_unloaded <==> !all_loaded(load_states@),
        decreases load_states.len() - i,
    {
        any_unloaded = !load_states[i];
        if any_unloaded {
            break ;
        }
        i += 1;
    }
    if !any_unloaded {
        Some(AppState::Ready)
    } else {
        None
    }
}

} // verus!
