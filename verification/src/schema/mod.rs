pub mod transformations;
pub mod nesting;
pub mod tree;

pub use transformations::field_alignment::align_fields;
pub use transformations::id_transformation::transform_guids_to_ids;
pub use transformations::paint_renaming::rename_paints;
pub use transformations::redundant_properties_removal::remove_redundant_properties;
pub use transformations::relative_transform::rename_transform;
pub use transformations::type_alignment::align_node_types;
pub use transformations::variables_transformation::transform_variables;
pub use transformations::vector_data_removal::remove_vector_data;
