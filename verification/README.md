# quartz_launcher

The decision logic of the Quartz Minecraft launcher, written in Verus and proved against
its contracts.

- `src/` — the verified library:
  - `text`, `names`: character-level string operations and first-appearance sets of names;
  - `classfile`, `class_laws`, `mixin`: reading Java class files for `@Mixin` targets (with
    laws on what the annotation reader yields), and which mixin
    configurations and classes of a Fabric mod to read;
  - `model`, `grouping`, `conflicts`, `conflict_laws`: installed content and the pre-launch
    conflict report (duplicate ids, projects, files, names, loader mismatches, mixin
    overlaps), with the laws the report obeys;
  - `recommendations`, `recommendation_state`, `home`: search requests, scoring and ranking
    of recommended content, the loading state of a recommendations section, and the home page;
  - `sort_key`, `config`, `content_page`, `instance_tabs`, `instances_page`: interface
    settings, favorites, content orders and the instance pages;
  - `time_format`, `workload`, `modpack_import`, `discord`: labels, the performance
    estimate, modpack folder import and Discord Rich Presence.
- `tests/` — tests run against the compiled library.
- `app/` — the command-line front end: file, archive and socket I/O, serde copies of the
  settings types, and floating-point animation curves.
