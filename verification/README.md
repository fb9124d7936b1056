# fig2json

Turns the node changes of a decoded Figma document into the JSON shape of the
Figma REST API, with the logic verified by Verus.

- `src/json.rs`: the document model (`Json`, its value `JsonV`) and the object
  operations everything else is built on.
- `src/schema/tree.rs`: the document tree built from the flat node changes
  (children ordered by position, instances expanded, ids assigned), with its
  error cases and the laws of the build.
- `src/schema/transformations/`: the passes over a document (paints, types,
  fields, GUIDs, variables, transforms, removals), each stated as a local edit
  of an object plus the shared walk in `traversal.rs`, with the laws of each;
  `field_alignment_settled.rs` shows that a second field alignment changes
  no member exactly where every object already holds, under `characters`
  and `style`, what its `textData` would lift again, and `keys_distinct.rs` that no pass or build makes an object
  hold two entries for one key.
- `src/components.rs`: the components, styles and component sets by GUID.
- `src/text.rs`, `src/number.rs`: strings, GUID text, byte order, and the
  numbers the passes read.
- `app/`: the same operations on `serde_json::Value`, and the absolute
  bounding boxes, which are floating-point arithmetic.
