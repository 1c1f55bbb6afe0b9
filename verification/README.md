# html_parser

The HTML parser of a structural diff tool. It parses `.html`, `.htm` and `.xhtml` sources with
tree-sitter, normalises the concrete syntax tree and labels its nodes. The library under `src/`
is verified with Verus.

| module        | what it holds                                                            |
|---------------|--------------------------------------------------------------------------|
| `cst`         | syntax tree nodes, their mathematical content, look-ups among children     |
| `tables`      | void elements, boolean attributes, trivia and semantic node types         |
| `text`        | lower-casing, trimming, attribute names in source spelling                |
| `normalize`   | the normal form of a tree, what computes it, and which children it keeps  |
| `normal_form` | laws of the normal form: idempotence, equivalent spellings, what is kept   |
| `label`       | labels of nodes                                                           |
| `label_laws`  | labels survive normalisation and depend on three levels                   |
| `parse`       | parsing with tree-sitter and its HTML grammar                             |
| `process`     | what follows from each outcome, and the answers for failures              |
| `plugin`      | identity, language detection, example and language records               |

`app/` is the plugin component: it implements the generated interface, and calls the plugin SDK
for the trees, the conversion and the metadata that the SDK alone can make. It expects the
interface definition `wit/plugin.wit` and the metadata file `plugin_metadata.info` of the plugin.

Sources below 4 GiB can be parsed: tree-sitter counts positions in 32 bits.
