use bevy::math::{URect, UVec2};
use protodominoes::state::AppState;
use protodominoes::systems::actions::DominoControlAction;
use protodominoes::systems::assets::{
    check_assets_loading, dominoes_layout, init_assets, AssetHandle, AssetsLoading, DominoInfo,
    DominoesAssetInfo, ImageAsset, LoadedAssets, Sprite, TextureAtlas,
};
use protodominoes::systems::domino_grid::components::DominoColor::{Blue, Green, Red, Yellow};
use protodominoes::systems::domino_grid::components::{DominoColor, DominoType};

fn sheet() -> DominoesAssetInfo {
    DominoesAssetInfo {
        image_asset: ImageAsset { image: AssetHandle { id: 2 }, atlas: Some(AssetHandle { id: 9 }) },
    }
}

#[test]
fn sprite_table_of_all_sixteen_pieces() {
    let expected = [
        (DominoType::Blue(Blue), 0, false),
        (DominoType::Blue(Green), 5, false),
        (DominoType::Blue(Red), 7, false),
        (DominoType::Blue(Yellow), 8, false),
        (DominoType::Red(Red), 3, false),
        (DominoType::Red(Blue), 7, true),
        (DominoType::Red(Green), 4, false),
        (DominoType::Red(Yellow), 9, false),
        (DominoType::Green(Green), 2, false),
        (DominoType::Green(Yellow), 6, false),
        (DominoType::Green(Blue), 5, true),
        (DominoType::Green(Red), 4, true),
        (DominoType::Yellow(Yellow), 1, false),
        (DominoType::Yellow(Blue), 8, true),
        (DominoType::Yellow(Green), 6, true),
        (DominoType::Yellow(Red), 9, true),
    ];
    for (kind, index, flipped) in expected {
        assert_eq!(sheet().sprite_info(&kind), DominoInfo { index, flipped });
    }
}

#[test]
fn domino_info_constructors() {
    assert_eq!(DominoInfo::flipped(4), DominoInfo { index: 4, flipped: true });
    assert_eq!(DominoInfo::unflipped(4), DominoInfo { index: 4, flipped: false });
}

#[test]
fn domino_sprite_points_into_the_atlas() {
    assert_eq!(
        sheet().get_domino(&DominoType::Yellow(DominoColor::Red)),
        Sprite {
            image: AssetHandle { id: 2 },
            texture_atlas: Some(TextureAtlas { layout: AssetHandle { id: 9 }, index: 9 }),
            flip_x: true,
        }
    );
}

#[test]
fn every_sprite_index_is_a_cell_of_the_layout() {
    let layout = dominoes_layout();
    for kind in DominoType::all_types() {
        assert!(sheet().sprite_info(&kind).index < layout.textures.len());
    }
}

#[test]
fn domino_layout_is_a_grid_of_four_by_three_tiles() {
    let layout = dominoes_layout();
    assert_eq!(layout.size, UVec2::new(256, 96));
    assert_eq!(layout.textures.len(), 12);
    assert_eq!(layout.textures[0], URect::new(0, 0, 64, 32));
    assert_eq!(layout.textures[3], URect::new(192, 0, 256, 32));
    assert_eq!(layout.textures[5], URect::new(64, 32, 128, 64));
    assert_eq!(layout.textures[11], URect::new(192, 64, 256, 96));
    for (index, cell) in layout.textures.iter().enumerate() {
        let x = (index % 4) as u32;
        let y = (index / 4) as u32;
        assert_eq!(*cell, URect::new(64 * x, 32 * y, 64 * (x + 1), 32 * (y + 1)));
    }
}

#[test]
fn image_sprites() {
    let plain = ImageAsset { image: AssetHandle { id: 5 }, atlas: None };
    let sheet = ImageAsset { image: AssetHandle { id: 6 }, atlas: Some(AssetHandle { id: 8 }) };
    assert_eq!(
        plain.get_sprite(),
        Sprite { image: AssetHandle { id: 5 }, texture_atlas: None, flip_x: false }
    );
    assert_eq!(
        sheet.get_sprite(),
        Sprite { image: AssetHandle { id: 6 }, texture_atlas: None, flip_x: false }
    );
    assert_eq!(
        plain.get_sprite_at(3),
        Sprite { image: AssetHandle { id: 5 }, texture_atlas: None, flip_x: false }
    );
    assert_eq!(
        sheet.get_sprite_at(3),
        Sprite {
            image: AssetHandle { id: 6 },
            texture_atlas: Some(TextureAtlas { layout: AssetHandle { id: 8 }, index: 3 }),
            flip_x: false,
        }
    );
}

#[test]
fn init_assets_fills_the_table_and_the_loading_list() {
    let mut loading = AssetsLoading(vec![AssetHandle { id: 40 }]);
    let mut loaded = LoadedAssets::default();
    init_assets(
        AssetHandle { id: 1 },
        AssetHandle { id: 2 },
        AssetHandle { id: 3 },
        AssetHandle { id: 4 },
        &mut loading,
        &mut loaded,
    );
    assert_eq!(
        loading.0,
        vec![
            AssetHandle { id: 40 },
            AssetHandle { id: 1 },
            AssetHandle { id: 2 },
            AssetHandle { id: 3 }
        ]
    );
    assert_eq!(loaded.images.ground, ImageAsset { image: AssetHandle { id: 1 }, atlas: None });
    assert_eq!(
        loaded.images.dominoes.image_asset,
        ImageAsset { image: AssetHandle { id: 2 }, atlas: Some(AssetHandle { id: 4 }) }
    );
    assert_eq!(loaded.images.grid_square, ImageAsset { image: AssetHandle { id: 3 }, atlas: None });
}

#[test]
fn loading_ends_when_every_asset_is_loaded() {
    assert_eq!(check_assets_loading(&vec![true, true, true]), Some(AppState::Ready));
    assert_eq!(check_assets_loading(&vec![true, false, true]), None);
    assert_eq!(check_assets_loading(&vec![false, true, true]), None);
    assert_eq!(check_assets_loading(&vec![true, true, false]), None);
    assert_eq!(check_assets_loading(&Vec::new()), Some(AppState::Ready));
}

#[test]
fn rotate_is_the_only_action() {
    assert_eq!(DominoControlAction::Rotate, DominoControlAction::Rotate.clone());
}
