pub mod albums;
pub mod filmstrip;
pub mod image_loader;
pub mod image_ops;
pub mod natural;
pub mod paths;
pub mod text;
pub mod theme;
pub mod util;
pub mod viewport;
pub mod window;
pub mod metadata;
pub mod shortcuts;
