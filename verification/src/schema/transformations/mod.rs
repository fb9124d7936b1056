pub mod alias;
pub mod field_alignment;
pub mod field_alignment_order;
pub mod id_transformation;
pub mod paint_renaming;
pub mod redundant_properties_removal;
pub mod relative_transform;
pub mod traversal;
pub mod type_alignment;
pub mod variables_transformation;
pub mod vector_data_removal;
pub mod field_alignment_settled;
pub mod keys_distinct;
