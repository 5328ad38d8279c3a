# setu

Setu checks markdown files for broken links.

- `src/` is the library, verified with Verus: classifying link destinations
  (`parser::classifier`), collecting the links of a markdown text with
  pulldown-cmark (`parser::parsing`), turning what the disk and the web answer
  into checks (`checker::local`, `checker::remote`, `checker::invalid`), and
  reporting the broken ones (`checker`, styled with `colored` through `style`).
- `app/` is the command-line program: arguments, walking the directory,
  reading files, probing the disk and requesting URLs, printing.
- `tests/` runs the library on concrete inputs.

Run `setu [PATH] [--concerns 404,500] [--strict]`. A remote URL that answers
with a status code listed under `--concerns` counts as broken; `--strict`
makes the program exit with status 1 when a broken link is found.
