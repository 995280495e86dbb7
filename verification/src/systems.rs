//! The systems of the game, one module per concern.
pub mod actions;
pub mod assets;
pub mod cursor;
pub mod domino_grid;

use vstd::prelude::*;
use crate::helpers::transform::{world_to_transform, Rotation, Transform, TILE_SIZE};
use crate::state::MenuState;
use crate::systems::assets::{AssetHandle, AssetsLoading, ImageAsset, LoadedAssets};

verus! {

/// Draw-order layer of the camera, above everything that is drawn.
pub const CAMERA_LAYER: i64 = 1000;

/// Where the camera stands: over the tile `(8, 6)`, on the camera layer.
pub fn init_camera() -> (camera: Transform)
    ensures
        camera.x == 8 * TILE_SIZE,
        camera.y == 6 * TILE_SIZE,
        camera.z == CAMERA_LAYER,
        camera.rotation == Rotation::Deg0,
{
    world_to_transform(8, 6, CAMERA_LAYER)
}

/// The asset table and the loading list as they are before any asset has
/// been requested: no image is known and nothing is loading.
pub fn init_resources() -> (resources: (LoadedAssets, AssetsLoading))
    ensures
        resources.0.images.ground == (ImageAsset { image: AssetHandle { id: 0 }, atlas: None }),
        resources.0.images.dominoes.image_asset == resources.0.images.ground,
        resources.0.images.grid_square == resources.0.images.ground,
        resources.1.0@ == Seq::<AssetHandle>::empty(),
{
    (LoadedAssets::default(), AssetsLoading::default())
}

/// The screen to show once the assets are ready: the game itself.
pub fn go_to_in_game() -> (next: MenuState)
    ensures
        next == MenuState::InGame,
{
    MenuState::InGame
}

} // verus!
