pub mod coords;
pub mod csg;
pub mod indexed_image;
pub mod le_bytes;
pub mod mask;
pub mod rle;
pub mod track_desc;
pub mod track_list;
pub mod settings;
pub mod editor;
pub mod render_queue;
pub mod colour;
pub mod image_file;
pub mod ride;
pub mod vehicle;
pub mod split;
pub mod chain;
pub mod sprites_json;
pub mod supports;
pub mod drawing;
pub mod offset;
pub mod atlas;
pub mod adjacent;
pub mod sprite_archive;
pub mod names;
pub mod depth;
pub mod track_drawing;
pub mod viewport;
pub mod vehicle_images;
pub mod crop;
pub mod path_key;
