//! The editing, redraw and drawing logic of a note-taking calculator.

pub mod app;
pub mod buckets;
pub mod canvas;
pub mod clipboard;
pub mod clipboard_laws;
pub mod content;
pub mod content_laws;
pub mod coords;
pub mod copy_laws;
pub mod edit_draw_laws;
pub mod editor;
pub mod event_laws;
pub mod events;
pub mod external;
pub mod frame_laws;
pub mod frame_render;
pub mod input;
pub mod input_keys;
pub mod line_laws;
pub mod line_part_laws;
pub mod line_parts;
pub mod line_render;
pub mod matrix_content_laws;
pub mod matrix_draw_laws;
pub mod matrix_edit_render;
pub mod matrix_editing;
pub mod matrix_input;
pub mod matrix_key_laws;
pub mod matrix_laws;
pub mod matrix_layout;
pub mod matrix_obj_render;
pub mod matrix_result_render;
pub mod mouse;
pub mod mouse_laws;
pub mod normalize;
pub mod normalize_laws;
pub mod objects;
pub mod render_data;
pub mod result_laws;
pub mod result_render;
pub mod results;
pub mod row_flags;
pub mod selection_laws;
pub mod selection_render;
pub mod selection_sum;
pub mod text_key_laws;
pub mod token_laws;
pub mod tokens;
pub mod update;
pub mod value_laws;
pub mod whole_laws;
pub mod update_laws;
pub mod update_step_laws;
